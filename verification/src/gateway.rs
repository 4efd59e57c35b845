//! The path of a request through the gateway, up to the call: who pays, what is called, and what a
//! client is told when it fails.

use crate::connectors::{
    ChatCompletionRequest, ChatMessage, ConnectorError, ErrorView, MessageView, RequestView,
    error_text, message_views,
};
use crate::provider::{Provider, provider_name, vendor_slug};
use crate::text::{
    decimal, decimal_text, lemma_prefix_rest_unique, same_text, strip_text_prefix, text2, text3,
    text_view,
};
use crate::vision::{
    DEFAULT_OUTPUT_TOKENS, ModelConfig, RoutingDecision, law_image_parts_are_seen,
    law_vision_choice_can_see, select_vision_model, vision_choice,
};
use vstd::prelude::*;
use vstd::string::*;

verus! {

// Errors.

/// Why a request is answered with an error.
#[derive(Debug)]
pub enum ApiError {
    BadRequest(String),
    RateLimited,
    LoopDetected,
    SpendCapExceeded,
    CircuitOpen,
    ProviderError(String),
    InternalError(String),
}

/// An error by its contents.
pub enum ApiErrorView {
    BadRequest(Seq<char>),
    RateLimited,
    LoopDetected,
    SpendCapExceeded,
    CircuitOpen,
    ProviderError(Seq<char>),
    InternalError(Seq<char>),
}

impl View for ApiError {
    type V = ApiErrorView;

    open spec fn view(&self) -> ApiErrorView {
        match self {
            ApiError::BadRequest(s) => ApiErrorView::BadRequest(s@),
            ApiError::RateLimited => ApiErrorView::RateLimited,
            ApiError::LoopDetected => ApiErrorView::LoopDetected,
            ApiError::SpendCapExceeded => ApiErrorView::SpendCapExceeded,
            ApiError::CircuitOpen => ApiErrorView::CircuitOpen,
            ApiError::ProviderError(s) => ApiErrorView::ProviderError(s@),
            ApiError::InternalError(s) => ApiErrorView::InternalError(s@),
        }
    }
}

/// The HTTP status of an error.
pub open spec fn error_status(e: ApiErrorView) -> u16 {
    match e {
        ApiErrorView::BadRequest(_) => 400,
        ApiErrorView::RateLimited => 429,
        ApiErrorView::LoopDetected => 429,
        ApiErrorView::SpendCapExceeded => 429,
        ApiErrorView::CircuitOpen => 503,
        ApiErrorView::ProviderError(_) => 502,
        ApiErrorView::InternalError(_) => 500,
    }
}

/// The type under which an error is reported.
pub open spec fn error_type(e: ApiErrorView) -> Seq<char> {
    match e {
        ApiErrorView::BadRequest(_) => "invalid_request_error"@,
        ApiErrorView::RateLimited => "rate_limit_error"@,
        ApiErrorView::LoopDetected => "loop_detected_error"@,
        ApiErrorView::SpendCapExceeded => "spend_cap_error"@,
        ApiErrorView::CircuitOpen => "server_error"@,
        ApiErrorView::ProviderError(_) => "provider_error"@,
        ApiErrorView::InternalError(_) => "internal_error"@,
    }
}

/// What a client in a loop is told.
pub const LOOP_MESSAGE: &'static str = "This looks like an agent stuck in a loop: the same prompt has been sent several times in the last minute. The request was blocked before calling any provider, so nothing was billed for it. If this is intentional (e.g. polling), space out retries or vary the prompt.";

/// What a client over its ceiling is told.
pub const SPEND_MESSAGE: &'static str = "This client has hit its spend cap for the current window. This usually means an agent is stuck retrying or looping and about to run up a large bill — the request was blocked before any provider was called. Contact the gateway operator to raise the cap if this is expected traffic.";

/// What the client is told.
pub open spec fn error_message(e: ApiErrorView) -> Seq<char> {
    match e {
        ApiErrorView::BadRequest(s) => s,
        ApiErrorView::RateLimited => "Rate limit exceeded"@,
        ApiErrorView::LoopDetected => LOOP_MESSAGE@,
        ApiErrorView::SpendCapExceeded => SPEND_MESSAGE@,
        ApiErrorView::CircuitOpen => "Service temporarily unavailable"@,
        ApiErrorView::ProviderError(s) => s,
        ApiErrorView::InternalError(s) => s,
    }
}

/// How an error is answered.
#[derive(Debug)]
pub struct ErrorReply {
    pub status: u16,
    pub message: String,
    pub error_type: &'static str,
}

impl ApiError {
    /// How the error is answered.
    pub fn into_reply(self) -> (r: ErrorReply)
        ensures
            r.status == error_status(self@),
            r.message@ == error_message(self@),
            r.error_type@ == error_type(self@),
    {
        match self {
            ApiError::BadRequest(message) => ErrorReply {
                status: 400,
                message,
                error_type: "invalid_request_error",
            },
            ApiError::RateLimited => ErrorReply {
                status: 429,
                message: "Rate limit exceeded".to_string(),
                error_type: "rate_limit_error",
            },
            ApiError::LoopDetected => ErrorReply {
                status: 429,
                message: LOOP_MESSAGE.to_string(),
                error_type: "loop_detected_error",
            },
            ApiError::SpendCapExceeded => ErrorReply {
                status: 429,
                message: SPEND_MESSAGE.to_string(),
                error_type: "spend_cap_error",
            },
            ApiError::CircuitOpen => ErrorReply {
                status: 503,
                message: "Service temporarily unavailable".to_string(),
                error_type: "server_error",
            },
            ApiError::ProviderError(message) => ErrorReply {
                status: 502,
                message,
                error_type: "provider_error",
            },
            ApiError::InternalError(message) => ErrorReply {
                status: 500,
                message,
                error_type: "internal_error",
            },
        }
    }
}

/// What a client is told of a call that failed.
pub open spec fn call_error(e: ErrorView) -> ApiErrorView {
    match e {
        ErrorView::CircuitOpen => ApiErrorView::CircuitOpen,
        ErrorView::RateLimited => ApiErrorView::RateLimited,
        ErrorView::Unauthorized => ApiErrorView::BadRequest(
            "The BYOK API key supplied for this provider was rejected. Check the key and try again."@,
        ),
        ErrorView::ServerError(status) => ApiErrorView::ProviderError(
            "Provider returned error status "@ + decimal(status as nat),
        ),
        _ => ApiErrorView::ProviderError(error_text(e)),
    }
}

/// What the client is told of a call that failed.
pub fn api_error_of(e: &ConnectorError) -> (r: ApiError)
    ensures
        r@ == call_error(e@),
{
    match e {
        ConnectorError::CircuitOpen => ApiError::CircuitOpen,
        ConnectorError::RateLimited => ApiError::RateLimited,
        ConnectorError::Unauthorized => ApiError::BadRequest(
            "The BYOK API key supplied for this provider was rejected. Check the key and try again.".to_string(),
        ),
        ConnectorError::ServerError { status } => {
            let n = decimal_text(*status as u128);
            ApiError::ProviderError(text2("Provider returned error status ", n.as_str()))
        },
        _ => ApiError::ProviderError(e.message()),
    }
}

// Who pays.

/// The keys that a client has sent, one for each provider.
#[derive(Debug)]
pub struct ClientProviderKeys {
    pub anthropic: Option<String>,
    pub openai: Option<String>,
    pub gemini: Option<String>,
    pub deepseek: Option<String>,
    pub mistral: Option<String>,
    pub xai: Option<String>,
    pub qwen: Option<String>,
    pub moonshot: Option<String>,
    pub zhipu: Option<String>,
    pub meta: Option<String>,
    pub openrouter: Option<String>,
}

/// The header that carries the key for a provider, in lower case.
pub open spec fn key_header(p: Provider) -> Seq<char> {
    match p {
        Provider::OpenAI => "x-openai-api-key"@,
        Provider::Anthropic => "x-anthropic-api-key"@,
        Provider::Gemini => "x-gemini-api-key"@,
        Provider::DeepSeek => "x-deepseek-api-key"@,
        Provider::Mistral => "x-mistral-api-key"@,
        Provider::XAI => "x-xai-api-key"@,
        Provider::Qwen => "x-qwen-api-key"@,
        Provider::Moonshot => "x-moonshot-api-key"@,
        Provider::Zhipu => "x-zhipu-api-key"@,
        Provider::Meta => "x-meta-api-key"@,
        Provider::OpenRouter => "x-openrouter-api-key"@,
    }
}

/// Another header that may carry the key for a provider, in lower case.
pub open spec fn other_key_header(p: Provider) -> Option<Seq<char>> {
    match p {
        Provider::XAI => Some("x-grok-api-key"@),
        Provider::Qwen => Some("x-dashscope-api-key"@),
        Provider::Moonshot => Some("x-kimi-api-key"@),
        Provider::Zhipu => Some("x-glm-api-key"@),
        Provider::Meta => Some("x-llama-api-key"@),
        _ => None,
    }
}

/// The value of the first header of a name, if there is one.
pub open spec fn header_value(headers: Seq<(String, String)>, name: Seq<char>) -> Option<Seq<char>>
    decreases headers.len(),
{
    if headers.len() == 0 {
        None
    } else if headers[0].0@ == name {
        Some(headers[0].1@)
    } else {
        header_value(headers.drop_first(), name)
    }
}

/// The key for a provider among a request's headers.
pub open spec fn sent_key(headers: Seq<(String, String)>, p: Provider) -> Option<Seq<char>> {
    match header_value(headers, key_header(p)) {
        Some(key) => Some(key),
        None => match other_key_header(p) {
            Some(name) => header_value(headers, name),
            None => None,
        },
    }
}

fn find_header(headers: &Vec<(String, String)>, name: &str) -> (r: Option<String>)
    ensures
        text_view(r) == header_value(headers@, name@),
{
    let mut i: usize = 0;
    assert(headers@.skip(0) == headers@);
    while i < headers.len()
        invariant
            i <= headers@.len(),
            header_value(headers@, name@) == header_value(headers@.skip(i as int), name@),
        decreases headers@.len() - i,
    {
        assert(headers@.skip(i as int)[0] == headers@[i as int]);
        assert(headers@.skip(i as int).drop_first() == headers@.skip(i + 1));
        if same_text(headers[i].0.as_str(), name) {
            return Some(headers[i].1.clone());
        }
        i = i + 1;
    }
    None
}

fn find_either(headers: &Vec<(String, String)>, name: &str, other: &str) -> (r: Option<String>)
    ensures
        text_view(r) == match header_value(headers@, name@) {
            Some(key) => Some(key),
            None => header_value(headers@, other@),
        },
{
    match find_header(headers, name) {
        Some(key) => Some(key),
        None => find_header(headers, other),
    }
}

impl ClientProviderKeys {
    /// The key for a provider, if the client has sent one.
    pub open spec fn key(&self, p: Provider) -> Option<Seq<char>> {
        match p {
            Provider::Anthropic => text_view(self.anthropic),
            Provider::OpenAI => text_view(self.openai),
            Provider::Gemini => text_view(self.gemini),
            Provider::DeepSeek => text_view(self.deepseek),
            Provider::Mistral => text_view(self.mistral),
            Provider::XAI => text_view(self.xai),
            Provider::Qwen => text_view(self.qwen),
            Provider::Moonshot => text_view(self.moonshot),
            Provider::Zhipu => text_view(self.zhipu),
            Provider::Meta => text_view(self.meta),
            Provider::OpenRouter => text_view(self.openrouter),
        }
    }

    /// The keys among a request's headers, whose names are in lower case.
    pub fn from_headers(headers: &Vec<(String, String)>) -> (keys: ClientProviderKeys)
        ensures
            forall|p: Provider| #[trigger] keys.key(p) == sent_key(headers@, p),
    {
        ClientProviderKeys {
            anthropic: find_header(headers, "x-anthropic-api-key"),
            openai: find_header(headers, "x-openai-api-key"),
            gemini: find_header(headers, "x-gemini-api-key"),
            deepseek: find_header(headers, "x-deepseek-api-key"),
            mistral: find_header(headers, "x-mistral-api-key"),
            xai: find_either(headers, "x-xai-api-key", "x-grok-api-key"),
            qwen: find_either(headers, "x-qwen-api-key", "x-dashscope-api-key"),
            moonshot: find_either(headers, "x-moonshot-api-key", "x-kimi-api-key"),
            zhipu: find_either(headers, "x-zhipu-api-key", "x-glm-api-key"),
            meta: find_either(headers, "x-meta-api-key", "x-llama-api-key"),
            openrouter: find_header(headers, "x-openrouter-api-key"),
        }
    }

    /// The key for a provider, if the client has sent one.
    pub fn for_provider(&self, provider: Provider) -> (r: Option<&str>)
        ensures
            match r {
                Some(key) => self.key(provider) == Some(key@),
                None => self.key(provider) is None,
            },
    {
        let field = match provider {
            Provider::Anthropic => &self.anthropic,
            Provider::OpenAI => &self.openai,
            Provider::Gemini => &self.gemini,
            Provider::DeepSeek => &self.deepseek,
            Provider::Mistral => &self.mistral,
            Provider::XAI => &self.xai,
            Provider::Qwen => &self.qwen,
            Provider::Moonshot => &self.moonshot,
            Provider::Zhipu => &self.zhipu,
            Provider::Meta => &self.meta,
            Provider::OpenRouter => &self.openrouter,
        };
        match field {
            Some(key) => Some(key.as_str()),
            None => None,
        }
    }
}

/// Which provider is called for a model, under which model id, and with whose key.
#[derive(Debug)]
pub struct ByokRoute {
    pub provider_to_call: Provider,
    pub model_id_to_send: String,
    pub api_key: String,
    pub used_openrouter_fallback: bool,
}

/// A route by its contents.
pub struct RouteView {
    pub provider_to_call: Provider,
    pub model_id_to_send: Seq<char>,
    pub api_key: Seq<char>,
    pub used_openrouter_fallback: bool,
}

impl View for ByokRoute {
    type V = RouteView;

    open spec fn view(&self) -> RouteView {
        RouteView {
            provider_to_call: self.provider_to_call,
            model_id_to_send: self.model_id_to_send@,
            api_key: self.api_key@,
            used_openrouter_fallback: self.used_openrouter_fallback,
        }
    }
}

/// The route for a model of a provider: directly with the client's key for that provider, else
/// through OpenRouter with the client's key for that, else none.
pub open spec fn byok_route(
    selected: Provider,
    model: Seq<char>,
    keys: ClientProviderKeys,
) -> Option<RouteView> {
    match keys.key(selected) {
        Some(key) => Some(
            RouteView {
                provider_to_call: selected,
                model_id_to_send: model,
                api_key: key,
                used_openrouter_fallback: false,
            },
        ),
        None => match keys.key(Provider::OpenRouter) {
            Some(key) => Some(
                RouteView {
                    provider_to_call: Provider::OpenRouter,
                    model_id_to_send: vendor_slug(selected) + "/"@ + model,
                    api_key: key,
                    used_openrouter_fallback: true,
                },
            ),
            None => None,
        },
    }
}

/// What a client without a key is told.
pub open spec fn no_key_message(selected: Provider) -> Seq<char> {
    "No API key supplied for provider '"@ + provider_name(selected)
        + "'. RouterFuel is fully bring-your-own-key: it never bills its own account for provider calls. Supply your key via the X-"@
        + provider_name(selected)
        + "-Api-Key header, or supply an X-Openrouter-Api-Key to route this model through OpenRouter instead."@
}

/// Finds who pays for a model of a provider. There is no key of the gateway's own to fall back on.
pub fn resolve_byok_route(
    selected_provider: Provider,
    requested_model: &str,
    keys: &ClientProviderKeys,
) -> (r: Result<ByokRoute, ApiError>)
    ensures
        match r {
            Ok(route) => byok_route(selected_provider, requested_model@, *keys) == Some(route@),
            Err(e) => byok_route(selected_provider, requested_model@, *keys) is None && e@
                == ApiErrorView::BadRequest(no_key_message(selected_provider)),
        },
{
    match keys.for_provider(selected_provider) {
        Some(key) => {
            return Ok(
                ByokRoute {
                    provider_to_call: selected_provider,
                    model_id_to_send: requested_model.to_string(),
                    api_key: key.to_string(),
                    used_openrouter_fallback: false,
                },
            );
        },
        None => {},
    }
    match keys.for_provider(Provider::OpenRouter) {
        Some(key) => {
            return Ok(
                ByokRoute {
                    provider_to_call: Provider::OpenRouter,
                    model_id_to_send: text3(
                        selected_provider.openrouter_prefix(),
                        "/",
                        requested_model,
                    ),
                    api_key: key.to_string(),
                    used_openrouter_fallback: true,
                },
            );
        },
        None => {},
    }
    let mut message = text3(
        "No API key supplied for provider '",
        selected_provider.name(),
        "'. RouterFuel is fully bring-your-own-key: it never bills its own account for provider calls. Supply your key via the X-",
    );
    message.append(selected_provider.name());
    message.append(
        "-Api-Key header, or supply an X-Openrouter-Api-Key to route this model through OpenRouter instead.",
    );
    Err(ApiError::BadRequest(message))
}

/// A call is always paid with the key that the client has sent for the provider that is called.
pub proof fn law_client_pays(selected: Provider, model: Seq<char>, keys: ClientProviderKeys)
    ensures
        match byok_route(selected, model, keys) {
            Some(route) => keys.key(route.provider_to_call) == Some(route.api_key),
            None => keys.key(selected) is None && keys.key(Provider::OpenRouter) is None,
        },
{
}

/// A client that has only a key for OpenRouter reaches every model of every provider.
pub proof fn law_openrouter_key_suffices(
    selected: Provider,
    model: Seq<char>,
    keys: ClientProviderKeys,
)
    requires
        keys.key(Provider::OpenRouter) is Some,
    ensures
        byok_route(selected, model, keys) is Some,
        keys.key(selected) is None ==> byok_route(selected, model, keys)->0.provider_to_call
            == Provider::OpenRouter,
{
}

// What is called.

/// What the router is asked for a request.
#[derive(Debug)]
pub enum RouteQuestion {
    /// The best balanced model for the input tokens and so many output tokens.
    Best { output_tokens: u32 },
    /// The best balanced model that can see.
    BestVision,
    /// The model for a task; and, if `image`, the best balanced model that can see.
    Task { name: String, image: bool },
    /// The provider of a model; and, if `image`, whether the model can see.
    Pinned { model: String, image: bool },
}

/// What the router knows of models that can see: its choices by balance and by quality for the
/// default number of output tokens, and the list of such models.
#[derive(Debug)]
pub struct VisionAnswers {
    pub balanced: Result<RoutingDecision, String>,
    pub by_quality: Result<RoutingDecision, String>,
    pub models: Vec<ModelConfig>,
}

/// What the router answers about a task.
#[derive(Debug)]
pub enum TaskAnswer {
    /// The name is no task's, and why.
    Unknown(String),
    /// The choice for the task.
    Known(Result<RoutingDecision, String>),
}

/// What the router answers to a question.
#[derive(Debug)]
pub enum RouteAnswer {
    Best(Result<RoutingDecision, String>),
    BestVision(VisionAnswers),
    Task { answer: TaskAnswer, vision: VisionAnswers },
    /// The provider of the model, and whether it can see, if the model is in the registry.
    Pinned { provider: Result<Provider, String>, supports_vision: Option<bool> },
}

/// Whether a request holds an image.
pub open spec fn has_image(messages: Seq<MessageView>) -> bool {
    exists|i: int| 0 <= i < messages.len() && (#[trigger] messages[i]).content.shows_image()
}

/// The output tokens that a request is routed for.
pub open spec fn output_budget(req: RequestView) -> u32 {
    match req.max_tokens {
        Some(n) => n,
        None => DEFAULT_OUTPUT_TOKENS,
    }
}

/// Whether a question is the one that a request raises. The model `auto` asks for the best model,
/// `task:` and a name for the model of that task, and anything else for itself.
pub open spec fn question_for(req: RequestView, q: RouteQuestion) -> bool {
    let image = has_image(req.messages);
    if req.model == "auto"@ {
        if image {
            q is BestVision
        } else {
            q == RouteQuestion::Best { output_tokens: output_budget(req) }
        }
    } else if "task:"@.is_prefix_of(req.model) {
        q matches RouteQuestion::Task { name, image: i } && name@ == req.model.skip(
            "task:"@.len() as int,
        ) && i == image
    } else {
        q matches RouteQuestion::Pinned { model, image: i } && model@ == req.model && i == image
    }
}

/// Whether an answer is of the form that a question asks for.
pub open spec fn answers(q: RouteQuestion, a: RouteAnswer) -> bool {
    match q {
        RouteQuestion::Best { .. } => a is Best,
        RouteQuestion::BestVision => a is BestVision,
        RouteQuestion::Task { .. } => a is Task,
        RouteQuestion::Pinned { .. } => a is Pinned,
    }
}

/// Whether an answer is of the form that the question of a request asks for.
pub open spec fn answers_for(req: RequestView, a: RouteAnswer) -> bool {
    if req.model == "auto"@ {
        if has_image(req.messages) {
            a is BestVision
        } else {
            a is Best
        }
    } else if "task:"@.is_prefix_of(req.model) {
        a is Task
    } else {
        a is Pinned
    }
}

/// Whatever answers the question that is asked for a request is an answer for that request.
pub proof fn law_answers_to_its_question_fit_a_request(
    req: RequestView,
    q: RouteQuestion,
    a: RouteAnswer,
)
    requires
        question_for(req, q),
    ensures
        answers(q, a) <==> answers_for(req, a),
{
}

/// Whether the messages hold an image.
pub fn any_image(messages: &Vec<ChatMessage>) -> (r: bool)
    ensures
        r == has_image(message_views(messages@)),
{
    let ghost views = message_views(messages@);
    let mut i: usize = 0;
    while i < messages.len()
        invariant
            views == message_views(messages@),
            i <= messages@.len(),
            forall|j: int| 0 <= j < i ==> !(#[trigger] views[j]).content.shows_image(),
        decreases messages@.len() - i,
    {
        assert(views[i as int] == messages@[i as int]@);
        if messages[i].content.has_image() {
            return true;
        }
        i = i + 1;
    }
    false
}

/// What the router is to be asked for the request.
pub fn route_question(request: &ChatCompletionRequest) -> (q: RouteQuestion)
    ensures
        question_for(request@, q),
{
    let image = any_image(&request.messages);
    if same_text(request.model.as_str(), "auto") {
        if image {
            return RouteQuestion::BestVision;
        }
        let output_tokens: u32 = match request.max_tokens {
            Some(n) => n,
            None => DEFAULT_OUTPUT_TOKENS,
        };
        return RouteQuestion::Best { output_tokens };
    }
    match strip_text_prefix(request.model.as_str(), "task:") {
        Some(name) => {
            proof {
                lemma_prefix_rest_unique(request.model@, "task:"@, name@);
            }
            RouteQuestion::Task { name, image }
        },
        None => RouteQuestion::Pinned { model: request.model.clone(), image },
    }
}

/// A provider and the id of a model.
#[derive(Debug)]
pub struct Target {
    pub provider: Provider,
    pub model: String,
}

/// Whether a target is the model that was chosen.
pub open spec fn targets(t: Target, m: ModelConfig) -> bool {
    t.provider == m.provider && t.model@ == m.api_id@
}

/// What comes of choosing a model that can see.
pub open spec fn vision_outcome(
    v: VisionAnswers,
    input_tokens: u32,
    r: Result<Target, ApiError>,
) -> bool {
    exists|choice: Result<RoutingDecision, String>|
        {
            &&& #[trigger] vision_choice(
                v.balanced,
                v.by_quality,
                v.models@,
                input_tokens,
                choice,
            )
            &&& match (choice, r) {
                (Ok(d), Ok(t)) => targets(t, d.model),
                (Err(e), Err(x)) => x@ == ApiErrorView::ProviderError(
                    "No vision-capable provider available: "@ + e@,
                ),
                _ => false,
            }
        }
}

/// What a client is told whose pinned model cannot see.
pub open spec fn blind_model_message(model: Seq<char>) -> Seq<char> {
    "Model '"@ + model
        + "' does not support image input. Use \"model\": \"auto\" to let RouterFuel pick a vision-capable model, or choose one directly (see GET /v1/models for supports_vision)."@
}

/// What a request is routed to, given what the router has answered.
pub open spec fn routed(
    req: RequestView,
    input_tokens: u32,
    a: RouteAnswer,
    r: Result<Target, ApiError>,
) -> bool {
    let image = has_image(req.messages);
    &&& answers_for(req, a)
    &&& match a {
        RouteAnswer::Best(Ok(d)) => r matches Ok(t) && targets(t, d.model),
        RouteAnswer::Best(Err(e)) => r matches Err(x) && x@ == ApiErrorView::ProviderError(
            "No available providers: "@ + e@,
        ),
        RouteAnswer::BestVision(v) => vision_outcome(v, input_tokens, r),
        RouteAnswer::Task { answer: TaskAnswer::Unknown(e), vision } => r matches Err(x) && x@
            == ApiErrorView::BadRequest(e@),
        RouteAnswer::Task { answer: TaskAnswer::Known(Err(e)), vision } => r matches Err(x) && x@
            == ApiErrorView::ProviderError("Task routing failed: "@ + e@),
        RouteAnswer::Task { answer: TaskAnswer::Known(Ok(d)), vision } => if image
            && !d.model.supports_vision {
            vision_outcome(vision, input_tokens, r)
        } else {
            r matches Ok(t) && targets(t, d.model)
        },
        RouteAnswer::Pinned { provider: Err(e), supports_vision } => r matches Err(x) && x@
            == ApiErrorView::ProviderError("No available providers"@),
        RouteAnswer::Pinned { provider: Ok(p), supports_vision } => if image && supports_vision
            == Some(false) {
            r matches Err(x) && x@ == ApiErrorView::BadRequest(blind_model_message(req.model))
        } else {
            r matches Ok(t) && t.provider == p && t.model@ == req.model
        },
    }
}

fn to_vision_model(v: VisionAnswers, input_tokens: u32) -> (r: Result<Target, ApiError>)
    ensures
        vision_outcome(v, input_tokens, r),
{
    match select_vision_model(v.balanced, v.by_quality, v.models, input_tokens) {
        Ok(d) => Ok(Target { provider: d.model.provider, model: d.model.api_id }),
        Err(e) => Err(
            ApiError::ProviderError(text2("No vision-capable provider available: ", e.as_str())),
        ),
    }
}

/// What the request is routed to, given what the router has answered to its question.
pub fn resolve_model(request: &ChatCompletionRequest, input_tokens: u32, answer: RouteAnswer) -> (r:
    Result<Target, ApiError>)
    requires
        answers_for(request@, answer),
    ensures
        routed(request@, input_tokens, answer, r),
{
    let image = any_image(&request.messages);
    match answer {
        RouteAnswer::Best(Ok(d)) => Ok(
            Target { provider: d.model.provider, model: d.model.api_id },
        ),
        RouteAnswer::Best(Err(e)) => Err(
            ApiError::ProviderError(text2("No available providers: ", e.as_str())),
        ),
        RouteAnswer::BestVision(v) => to_vision_model(v, input_tokens),
        RouteAnswer::Task { answer, vision } => match answer {
            TaskAnswer::Unknown(e) => Err(ApiError::BadRequest(e)),
            TaskAnswer::Known(Err(e)) => Err(
                ApiError::ProviderError(text2("Task routing failed: ", e.as_str())),
            ),
            TaskAnswer::Known(Ok(d)) => {
                if image && !d.model.supports_vision {
                    to_vision_model(vision, input_tokens)
                } else {
                    Ok(Target { provider: d.model.provider, model: d.model.api_id })
                }
            },
        },
        RouteAnswer::Pinned { provider, supports_vision } => match provider {
            Err(_) => Err(ApiError::ProviderError("No available providers".to_string())),
            Ok(provider) => {
                let blind = match supports_vision {
                    Some(sees) => !sees,
                    None => false,
                };
                if image && blind {
                    return Err(
                        ApiError::BadRequest(
                            text3(
                                "Model '",
                                request.model.as_str(),
                                "' does not support image input. Use \"model\": \"auto\" to let RouterFuel pick a vision-capable model, or choose one directly (see GET /v1/models for supports_vision).",
                            ),
                        ),
                    );
                }
                Ok(Target { provider, model: request.model.clone() })
            },
        },
    }
}

/// Whether all models that an answer lists as able to see can see.
pub open spec fn lists_only_seeing(a: RouteAnswer) -> bool {
    match a {
        RouteAnswer::BestVision(v) => forall|j: int|
            0 <= j < v.models@.len() ==> (#[trigger] v.models@[j]).supports_vision,
        RouteAnswer::Task { answer, vision } => forall|j: int|
            0 <= j < vision.models@.len() ==> (#[trigger] vision.models@[j]).supports_vision,
        _ => true,
    }
}

/// A request with an image never goes to a model that is known not to see: where the router
/// chooses, its choice can see; where the client has pinned a model that cannot, the request is
/// refused as a bad one.
pub proof fn law_images_reach_models_that_see(
    req: RequestView,
    input_tokens: u32,
    a: RouteAnswer,
    r: Result<Target, ApiError>,
)
    requires
        routed(req, input_tokens, a, r),
        has_image(req.messages),
        lists_only_seeing(a),
    ensures
        r is Ok && !(a is Pinned) ==> exists|m: ModelConfig|
            m.supports_vision && #[trigger] targets(r->Ok_0, m),
        a matches RouteAnswer::Pinned { provider, supports_vision } ==> supports_vision == Some(
            false,
        ) ==> r is Err,
        a matches RouteAnswer::Pinned { provider, supports_vision } ==> provider is Ok
            && supports_vision == Some(false) ==> error_status(r->Err_0@) == 400,
{
    match a {
        RouteAnswer::Task { answer: TaskAnswer::Known(Ok(d)), vision } => {
            if d.model.supports_vision {
                assert(targets(r->Ok_0, d.model));
            } else if r is Ok {
                lemma_vision_outcome_sees(vision, input_tokens, r);
            }
        },
        RouteAnswer::BestVision(v) => {
            if r is Ok {
                lemma_vision_outcome_sees(v, input_tokens, r);
            }
        },
        _ => {},
    }
}

proof fn lemma_vision_outcome_sees(
    v: VisionAnswers,
    input_tokens: u32,
    r: Result<Target, ApiError>,
)
    requires
        vision_outcome(v, input_tokens, r),
        r is Ok,
        forall|j: int| 0 <= j < v.models@.len() ==> (#[trigger] v.models@[j]).supports_vision,
    ensures
        exists|m: ModelConfig| m.supports_vision && #[trigger] targets(r->Ok_0, m),
{
    let choice = choose|choice: Result<RoutingDecision, String>|
        {
            &&& #[trigger] vision_choice(
                v.balanced,
                v.by_quality,
                v.models@,
                input_tokens,
                choice,
            )
            &&& match (choice, r) {
                (Ok(d), Ok(t)) => targets(t, d.model),
                (Err(e), Err(x)) => x@ == ApiErrorView::ProviderError(
                    "No vision-capable provider available: "@ + e@,
                ),
                _ => false,
            }
        };
    law_vision_choice_can_see(v.balanced, v.by_quality, v.models@, input_tokens, choice);
    assert(targets(r->Ok_0, choice->Ok_0.model));
}

/// A request without an image is routed to what the router chose for it, whatever it says of models
/// that can see: two answers that differ in that alone have the same outcome.
pub proof fn law_vision_answers_do_not_matter_without_an_image(
    req: RequestView,
    input_tokens: u32,
    answer: TaskAnswer,
    vision: VisionAnswers,
    other: VisionAnswers,
    r: Result<Target, ApiError>,
)
    requires
        forall|i: int, j: int|
            #![trigger req.messages[i].content->Parts_0[j]]
            0 <= i < req.messages.len() && req.messages[i].content is Parts && 0 <= j
                < req.messages[i].content->Parts_0.len()
                ==> req.messages[i].content->Parts_0[j].kind is Text,
        routed(req, input_tokens, RouteAnswer::Task { answer, vision }, r),
    ensures
        routed(req, input_tokens, RouteAnswer::Task { answer, vision: other }, r),
        answer matches TaskAnswer::Known(Ok(d)) ==> (r matches Ok(t) && t.provider
            == d.model.provider && t.model@ == d.model.api_id@),
{
    lemma_no_image(req.messages);
}

/// Messages whose parts are all texts hold no image.
proof fn lemma_no_image(messages: Seq<MessageView>)
    requires
        forall|i: int, j: int|
            #![trigger messages[i].content->Parts_0[j]]
            0 <= i < messages.len() && messages[i].content is Parts && 0 <= j
                < messages[i].content->Parts_0.len()
                ==> messages[i].content->Parts_0[j].kind is Text,
    ensures
        !has_image(messages),
{
    assert forall|i: int| 0 <= i < messages.len() implies !(
    #[trigger] messages[i]).content.shows_image() by {
        law_image_parts_are_seen(messages[i].content);
        if messages[i].content is Parts {
            let parts = messages[i].content->Parts_0;
            assert forall|j: int| 0 <= j < parts.len() implies (#[trigger] parts[j]).kind is Text by {
                assert(messages[i].content->Parts_0[j].kind is Text);
            }
        }
    }
}

/// A request holds an image exactly if a part of one of its messages is an image, by its URL or inline.
pub proof fn law_requests_with_image_parts_hold_images(
    messages: Seq<MessageView>,
    i: int,
    j: int,
)
    requires
        0 <= i < messages.len(),
        messages[i].content is Parts,
        0 <= j < messages[i].content->Parts_0.len(),
        messages[i].content->Parts_0[j].kind is ImageUrl
            || messages[i].content->Parts_0[j].kind is ImageBase64,
    ensures
        has_image(messages),
{
    law_image_parts_are_seen(messages[i].content);
    let parts = messages[i].content->Parts_0;
    assert(parts[j].kind is ImageUrl || parts[j].kind is ImageBase64);
    assert(messages[i].content.shows_image());
}

/// Messages of plain text and text parts hold no image.
pub proof fn law_texts_hold_no_image(messages: Seq<MessageView>)
    requires
        forall|i: int, j: int|
            #![trigger messages[i].content->Parts_0[j]]
            0 <= i < messages.len() && messages[i].content is Parts && 0 <= j
                < messages[i].content->Parts_0.len()
                ==> messages[i].content->Parts_0[j].kind is Text,
    ensures
        !has_image(messages),
{
    lemma_no_image(messages);
}

/// A request one of whose parts is an image, by its URL or inline, is never routed to a model that is
/// known not to see: where the router chooses, its choice can see; a pinned model that cannot is
/// refused with 400.
pub proof fn law_image_parts_reach_models_that_see(
    req: RequestView,
    input_tokens: u32,
    a: RouteAnswer,
    r: Result<Target, ApiError>,
    i: int,
    j: int,
)
    requires
        0 <= i < req.messages.len(),
        req.messages[i].content is Parts,
        0 <= j < req.messages[i].content->Parts_0.len(),
        req.messages[i].content->Parts_0[j].kind is ImageUrl
            || req.messages[i].content->Parts_0[j].kind is ImageBase64,
        routed(req, input_tokens, a, r),
        lists_only_seeing(a),
    ensures
        !(a is Best),
        r is Ok && !(a is Pinned) ==> exists|m: ModelConfig|
            m.supports_vision && #[trigger] targets(r->Ok_0, m),
        a matches RouteAnswer::Pinned { provider: Ok(_), supports_vision: Some(false) } ==> (
        r matches Err(e) && e@ is BadRequest && error_status(e@) == 400),
{
    law_requests_with_image_parts_hold_images(req.messages, i, j);
    law_images_reach_models_that_see(req, input_tokens, a, r);
}

/// Where the router has chosen, its choice is called: the provider and the id of that model.
pub proof fn law_the_routers_choice_is_called(
    req: RequestView,
    input_tokens: u32,
    d: RoutingDecision,
    r: Result<Target, ApiError>,
)
    requires
        routed(req, input_tokens, RouteAnswer::Best(Ok(d)), r),
    ensures
        r matches Ok(t) && t.provider == d.model.provider && t.model@ == d.model.api_id@,
        req.model == "auto"@,
{
}

/// A task's model that can see is called for every request of the task, with an image or without.
pub proof fn law_task_models_that_see_are_called(
    req: RequestView,
    input_tokens: u32,
    d: RoutingDecision,
    vision: VisionAnswers,
    r: Result<Target, ApiError>,
)
    requires
        routed(req, input_tokens, RouteAnswer::Task { answer: TaskAnswer::Known(Ok(d)), vision }, r),
        d.model.supports_vision,
    ensures
        r matches Ok(t) && t.provider == d.model.provider && t.model@ == d.model.api_id@,
{
}

/// A pinned model is called as it is, at its provider, unless the request holds an image and the model
/// is known not to see.
pub proof fn law_pinned_models_are_called_as_they_are(
    req: RequestView,
    input_tokens: u32,
    provider: Provider,
    supports_vision: Option<bool>,
    r: Result<Target, ApiError>,
)
    requires
        routed(
            req,
            input_tokens,
            RouteAnswer::Pinned { provider: Ok(provider), supports_vision },
            r,
        ),
        supports_vision != Some(false) || !has_image(req.messages),
    ensures
        r matches Ok(t) && t.provider == provider && t.model@ == req.model,
{
}

/// What the client is told where the router cannot help: an unknown task is a bad request with the
/// router's own words; anything else is a failure of the providers, with the reason.
pub proof fn law_routing_failures_are_told(
    req: RequestView,
    input_tokens: u32,
    reason: String,
    vision: VisionAnswers,
    supports_vision: Option<bool>,
    best: Result<Target, ApiError>,
    unknown: Result<Target, ApiError>,
    task: Result<Target, ApiError>,
    pinned: Result<Target, ApiError>,
)
    ensures
        routed(req, input_tokens, RouteAnswer::Best(Err(reason)), best) ==> (best matches Err(e)
            && e@ == ApiErrorView::ProviderError("No available providers: "@ + reason@)),
        routed(
            req,
            input_tokens,
            RouteAnswer::Task { answer: TaskAnswer::Unknown(reason), vision },
            unknown,
        ) ==> (unknown matches Err(e) && e@ == ApiErrorView::BadRequest(reason@)),
        routed(
            req,
            input_tokens,
            RouteAnswer::Task { answer: TaskAnswer::Known(Err(reason)), vision },
            task,
        ) ==> (task matches Err(e) && e@ == ApiErrorView::ProviderError(
            "Task routing failed: "@ + reason@,
        )),
        routed(
            req,
            input_tokens,
            RouteAnswer::Pinned { provider: Err(reason), supports_vision },
            pinned,
        ) ==> (pinned matches Err(e) && e@ == ApiErrorView::ProviderError(
            "No available providers"@,
        )),
{
}

/// What the router is asked: for `auto` the best model for the request's limit, or 1024 tokens, and one
/// that can see if there is an image; for `task:` the task of that name; else the model itself.
pub proof fn law_questions_are_about_the_request(
    req: RequestView,
    q: RouteQuestion,
    name: Seq<char>,
)
    requires
        question_for(req, q),
    ensures
        req.model == "auto"@ && !has_image(req.messages) ==> {
            &&& q is Best
            &&& req.max_tokens matches Some(n) ==> q->output_tokens == n
            &&& req.max_tokens is None ==> q->output_tokens == 1024
        },
        req.model == "auto"@ && has_image(req.messages) ==> q is BestVision,
        req.model == "task:"@ + name ==> {
            &&& q is Task
            &&& q->name@ == name
            &&& q->Task_image == has_image(req.messages)
        },
        req.model != "auto"@ && !("task:"@.is_prefix_of(req.model)) ==> {
            &&& q is Pinned
            &&& q->model@ == req.model
            &&& q->Pinned_image == has_image(req.messages)
        },
{
    reveal_strlit("auto");
    reveal_strlit("task:");
    if req.model == "task:"@ + name {
        assert("task:"@.len() == 5);
        assert("task:"@[0] == 't');
        assert(req.model[0] == 't');
        assert("auto"@[0] == 'a');
        assert(req.model.take(5) == "task:"@);
        assert("task:"@.is_prefix_of(req.model));
        assert(req.model.skip(5) == name);
    }
}

/// The status that each error is answered with.
pub proof fn law_each_error_has_its_status(reason: Seq<char>)
    ensures
        error_status(ApiErrorView::BadRequest(reason)) == 400,
        error_status(ApiErrorView::RateLimited) == 429,
        error_status(ApiErrorView::LoopDetected) == 429,
        error_status(ApiErrorView::SpendCapExceeded) == 429,
        error_status(ApiErrorView::CircuitOpen) == 503,
        error_status(ApiErrorView::ProviderError(reason)) == 502,
        error_status(ApiErrorView::InternalError(reason)) == 500,
        error_type(ApiErrorView::BadRequest(reason)) == "invalid_request_error"@,
        error_type(ApiErrorView::RateLimited) == "rate_limit_error"@,
        error_type(ApiErrorView::LoopDetected) == "loop_detected_error"@,
        error_type(ApiErrorView::SpendCapExceeded) == "spend_cap_error"@,
        error_type(ApiErrorView::CircuitOpen) == "server_error"@,
        error_type(ApiErrorView::ProviderError(reason)) == "provider_error"@,
        error_type(ApiErrorView::InternalError(reason)) == "internal_error"@,
{
}

/// A reason that was given is told to the client as it is.
pub proof fn law_reasons_are_told_as_they_are(reason: Seq<char>)
    ensures
        error_message(ApiErrorView::BadRequest(reason)) == reason,
        error_message(ApiErrorView::ProviderError(reason)) == reason,
        error_message(ApiErrorView::InternalError(reason)) == reason,
        error_message(ApiErrorView::RateLimited) == "Rate limit exceeded"@,
        error_message(ApiErrorView::CircuitOpen) == "Service temporarily unavailable"@,
{
}

/// What a client is told of a failed call: of an open circuit with 503, of a rate limit with 429, of a
/// rejected key with 400, and of anything else with 502 and the reason.
pub proof fn law_failed_calls_are_told(e: ErrorView)
    ensures
        e is CircuitOpen ==> error_status(call_error(e)) == 503,
        e is RateLimited ==> error_status(call_error(e)) == 429,
        e is Unauthorized ==> error_status(call_error(e)) == 400 && error_message(call_error(e))
            == "The BYOK API key supplied for this provider was rejected. Check the key and try again."@,
        e matches ErrorView::ServerError(status) ==> error_status(call_error(e)) == 502
            && error_message(call_error(e)) == "Provider returned error status "@ + decimal(
            status as nat,
        ),
        !(e is CircuitOpen) && !(e is RateLimited) && !(e is Unauthorized) && !(e is ServerError)
            ==> error_status(call_error(e)) == 502 && error_message(call_error(e)) == error_text(e),
{
}

/// A header's value is that of its first occurrence: headers of other names before it, and whatever
/// follows it, do not matter.
pub proof fn law_first_header_of_a_name_counts(
    before: Seq<(String, String)>,
    header: (String, String),
    after: Seq<(String, String)>,
)
    requires
        forall|i: int| 0 <= i < before.len() ==> (#[trigger] before[i]).0@ != header.0@,
    ensures
        header_value(before, header.0@) is None,
        header_value(before.push(header) + after, header.0@) == Some(header.1@),
    decreases before.len(),
{
    let whole = before.push(header) + after;
    if before.len() > 0 {
        let rest = before.drop_first();
        assert forall|i: int| 0 <= i < rest.len() implies (#[trigger] rest[i]).0@ != header.0@ by {
            assert(rest[i] == before[i + 1]);
        }
        law_first_header_of_a_name_counts(rest, header, after);
        assert(whole.drop_first() == rest.push(header) + after);
        assert(whole[0] == before[0]);
        assert(before[0].0@ != header.0@);
    } else {
        assert(whole[0] == header);
    }
}

/// The key for each provider is the value of its own header; five providers have a second one, which
/// counts where the first is missing.
pub proof fn law_each_provider_has_its_own_key_header(headers: Seq<(String, String)>, p: Provider)
    ensures
        p == Provider::OpenAI ==> sent_key(headers, p) == header_value(
            headers,
            "x-openai-api-key"@,
        ),
        p == Provider::Anthropic ==> sent_key(headers, p) == header_value(
            headers,
            "x-anthropic-api-key"@,
        ),
        p == Provider::Gemini ==> sent_key(headers, p) == header_value(
            headers,
            "x-gemini-api-key"@,
        ),
        p == Provider::DeepSeek ==> sent_key(headers, p) == header_value(
            headers,
            "x-deepseek-api-key"@,
        ),
        p == Provider::Mistral ==> sent_key(headers, p) == header_value(
            headers,
            "x-mistral-api-key"@,
        ),
        p == Provider::OpenRouter ==> sent_key(headers, p) == header_value(
            headers,
            "x-openrouter-api-key"@,
        ),
        p == Provider::XAI ==> sent_key(headers, p) == first_of(
            header_value(headers, "x-xai-api-key"@),
            header_value(headers, "x-grok-api-key"@),
        ),
        p == Provider::Qwen ==> sent_key(headers, p) == first_of(
            header_value(headers, "x-qwen-api-key"@),
            header_value(headers, "x-dashscope-api-key"@),
        ),
        p == Provider::Moonshot ==> sent_key(headers, p) == first_of(
            header_value(headers, "x-moonshot-api-key"@),
            header_value(headers, "x-kimi-api-key"@),
        ),
        p == Provider::Zhipu ==> sent_key(headers, p) == first_of(
            header_value(headers, "x-zhipu-api-key"@),
            header_value(headers, "x-glm-api-key"@),
        ),
        p == Provider::Meta ==> sent_key(headers, p) == first_of(
            header_value(headers, "x-meta-api-key"@),
            header_value(headers, "x-llama-api-key"@),
        ),
{
}

/// A value, or another where it is missing.
pub open spec fn first_of(a: Option<Seq<char>>, b: Option<Seq<char>>) -> Option<Seq<char>> {
    if a is Some {
        a
    } else {
        b
    }
}

/// Each provider's key is kept apart from the others'.
pub proof fn law_keys_are_kept_apart(keys: ClientProviderKeys)
    ensures
        keys.key(Provider::Anthropic) == text_view(keys.anthropic),
        keys.key(Provider::OpenAI) == text_view(keys.openai),
        keys.key(Provider::Gemini) == text_view(keys.gemini),
        keys.key(Provider::DeepSeek) == text_view(keys.deepseek),
        keys.key(Provider::Mistral) == text_view(keys.mistral),
        keys.key(Provider::XAI) == text_view(keys.xai),
        keys.key(Provider::Qwen) == text_view(keys.qwen),
        keys.key(Provider::Moonshot) == text_view(keys.moonshot),
        keys.key(Provider::Zhipu) == text_view(keys.zhipu),
        keys.key(Provider::Meta) == text_view(keys.meta),
        keys.key(Provider::OpenRouter) == text_view(keys.openrouter),
{
}

/// A client with a key for the provider is routed to it directly, under the model's own id; one with
/// only a key for OpenRouter reaches the model there, under the vendor's slug and the model's id.
pub proof fn law_routes_prefer_the_providers_own_key(
    selected: Provider,
    model: Seq<char>,
    keys: ClientProviderKeys,
)
    ensures
        keys.key(selected) is Some ==> (byok_route(selected, model, keys) matches Some(r)
            && r.provider_to_call == selected && r.model_id_to_send == model && Some(r.api_key)
            == keys.key(selected) && !r.used_openrouter_fallback),
        keys.key(selected) is None && keys.key(Provider::OpenRouter) is Some ==> (byok_route(
            selected,
            model,
            keys,
        ) matches Some(r) && r.provider_to_call == Provider::OpenRouter && r.model_id_to_send
            == vendor_slug(selected) + "/"@ + model && Some(r.api_key) == keys.key(
            Provider::OpenRouter,
        ) && r.used_openrouter_fallback),
{
}

/// An error and a route are seen with all that they hold.
pub proof fn law_errors_and_routes_are_seen_whole(e: ApiError, r: ByokRoute)
    ensures
        match e {
            ApiError::BadRequest(s) => e@ == ApiErrorView::BadRequest(s@),
            ApiError::RateLimited => e@ is RateLimited,
            ApiError::LoopDetected => e@ is LoopDetected,
            ApiError::SpendCapExceeded => e@ is SpendCapExceeded,
            ApiError::CircuitOpen => e@ is CircuitOpen,
            ApiError::ProviderError(s) => e@ == ApiErrorView::ProviderError(s@),
            ApiError::InternalError(s) => e@ == ApiErrorView::InternalError(s@),
        },
        r@.provider_to_call == r.provider_to_call,
        r@.model_id_to_send == r.model_id_to_send@,
        r@.api_key == r.api_key@,
        r@.used_openrouter_fallback == r.used_openrouter_fallback,
{
}

/// Where a model that can see is to be found, the router's balanced choice is called if it can see,
/// and else its choice by quality; where the router fails, that is told with its reason. The same holds
/// of a task whose own model cannot see, if the request holds an image.
pub proof fn law_vision_routing_follows_the_router(
    req: RequestView,
    input_tokens: u32,
    vision: VisionAnswers,
    blind: RoutingDecision,
    r: Result<Target, ApiError>,
)
    requires
        routed(req, input_tokens, RouteAnswer::BestVision(vision), r) || (has_image(req.messages)
            && !blind.model.supports_vision && routed(
            req,
            input_tokens,
            RouteAnswer::Task { answer: TaskAnswer::Known(Ok(blind)), vision },
            r,
        )),
    ensures
        vision.balanced matches Err(e) ==> (r matches Err(x) && x@ == ApiErrorView::ProviderError(
            "No vision-capable provider available: "@ + e@,
        )),
        vision.balanced matches Ok(d) ==> d.model.supports_vision ==> (r matches Ok(t)
            && t.provider == d.model.provider && t.model@ == d.model.api_id@),
        vision.balanced matches Ok(d) ==> !d.model.supports_vision ==> (vision.by_quality matches Ok(
            f,
        ) ==> f.model.supports_vision ==> (r matches Ok(t) && t.provider == f.model.provider
            && t.model@ == f.model.api_id@)),
{
    assert(vision_outcome(vision, input_tokens, r));
}

/// A request is routed by an answer to its own question alone: one for `auto` by a choice of the best
/// model, which can see if there is an image; one for a task by the task's; and any other by what is
/// known of its own model.
pub proof fn law_requests_are_routed_by_their_own_answer(
    req: RequestView,
    input_tokens: u32,
    a: RouteAnswer,
    r: Result<Target, ApiError>,
)
    requires
        routed(req, input_tokens, a, r),
    ensures
        a is Best <==> req.model == "auto"@ && !has_image(req.messages),
        a is BestVision <==> req.model == "auto"@ && has_image(req.messages),
        a is Task <==> req.model != "auto"@ && "task:"@.is_prefix_of(req.model),
        a is Pinned <==> req.model != "auto"@ && !("task:"@.is_prefix_of(req.model)),
{
}

/// What a client is told whose model cannot see, or who has sent no key: the model and the provider that
/// it is about stand in the message.
pub proof fn law_messages_name_the_model_and_the_provider(model: Seq<char>, p: Provider)
    ensures
        blind_model_message(model) == "Model '"@ + model
            + "' does not support image input. Use \"model\": \"auto\" to let RouterFuel pick a vision-capable model, or choose one directly (see GET /v1/models for supports_vision)."@,
        no_key_message(p) == "No API key supplied for provider '"@ + provider_name(p)
            + "'. RouterFuel is fully bring-your-own-key: it never bills its own account for provider calls. Supply your key via the X-"@
            + provider_name(p)
            + "-Api-Key header, or supply an X-Openrouter-Api-Key to route this model through OpenRouter instead."@,
{
}

} // verus!
