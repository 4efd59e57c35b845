//! What each provider is sent, and what is made of its answer.
//!
//! No key of the gateway's own exists: every call carries the client's key. The OpenAI-compatible
//! providers share one wire format; Anthropic and Gemini have their own.

use crate::json::{
    JsonView, json_array, json_bool, json_clone, json_null, json_number, json_object, json_str,
    json_view, json_views, no_fields, set_field,
};
use crate::text::{decimal, decimal_text, same_text, text2, text3, text_view};
use crate::vision::{
    ContentPart, ContentView, DEFAULT_OUTPUT_TOKENS, ImageBase64, ImageUrl, MessageContent,
    PartKind, anthropic_content, anthropic_message, gemini_content, gemini_message, jstr,
    at, names, openai_compatible_content, openai_message,
};
use vstd::prelude::*;
use vstd::string::*;

pub use crate::calls::{ChatCompletionResponse, Choice, ConnectorResult, Usage};
pub use crate::provider::{provider_base_url, Provider};

verus! {

/// Why a call to a provider failed.
#[derive(Debug)]
pub enum ConnectorError {
    /// The transport failed, with its own text.
    Http(String),
    ServerError { status: u16 },
    Unauthorized,
    RateLimited,
    Timeout,
    BadResponse(String),
    /// A value could not be written or read, with the reason.
    Serde(String),
    CircuitOpen,
    NotImplemented(String),
    MissingKey(String),
}

/// An error by its contents.
pub enum ErrorView {
    Http(Seq<char>),
    ServerError(u16),
    Unauthorized,
    RateLimited,
    Timeout,
    BadResponse(Seq<char>),
    Serde(Seq<char>),
    CircuitOpen,
    NotImplemented(Seq<char>),
    MissingKey(Seq<char>),
}

impl View for ConnectorError {
    type V = ErrorView;

    open spec fn view(&self) -> ErrorView {
        match self {
            ConnectorError::Http(s) => ErrorView::Http(s@),
            ConnectorError::ServerError { status } => ErrorView::ServerError(*status),
            ConnectorError::Unauthorized => ErrorView::Unauthorized,
            ConnectorError::RateLimited => ErrorView::RateLimited,
            ConnectorError::Timeout => ErrorView::Timeout,
            ConnectorError::BadResponse(s) => ErrorView::BadResponse(s@),
            ConnectorError::Serde(s) => ErrorView::Serde(s@),
            ConnectorError::CircuitOpen => ErrorView::CircuitOpen,
            ConnectorError::NotImplemented(s) => ErrorView::NotImplemented(s@),
            ConnectorError::MissingKey(s) => ErrorView::MissingKey(s@),
        }
    }
}

/// The text of an error.
pub open spec fn error_text(e: ErrorView) -> Seq<char> {
    match e {
        ErrorView::Http(s) => "HTTP error: "@ + s,
        ErrorView::ServerError(status) => "Provider returned 5xx ("@ + decimal(status as nat)
            + ")"@,
        ErrorView::Unauthorized =>
            "Unauthorized — the BYOK key supplied for this provider was rejected"@,
        ErrorView::RateLimited => "Rate limited"@,
        ErrorView::Timeout => "Timeout"@,
        ErrorView::BadResponse(s) => "Bad response: "@ + s,
        ErrorView::Serde(s) => "Serialization: "@ + s,
        ErrorView::CircuitOpen => "Circuit breaker open"@,
        ErrorView::NotImplemented(s) => "Not implemented: "@ + s,
        ErrorView::MissingKey(s) => "Missing BYOK key: no API key supplied for provider '"@ + s
            + "' (directly or via OpenRouter)"@,
    }
}

impl ConnectorError {
    /// Whether the error speaks against the provider's health: a server error, a timeout or a
    /// failed transport.
    pub fn trips_circuit(&self) -> (r: bool)
        ensures
            r <==> self@ is ServerError || self@ is Timeout || self@ is Http,
    {
        match self {
            ConnectorError::ServerError { .. } => true,
            ConnectorError::Timeout => true,
            ConnectorError::Http(_) => true,
            _ => false,
        }
    }

    /// The text of the error.
    pub fn message(&self) -> (s: String)
        ensures
            s@ == error_text(self@),
    {
        match self {
            ConnectorError::Http(e) => text2("HTTP error: ", e.as_str()),
            ConnectorError::ServerError { status } => {
                let n = decimal_text(*status as u128);
                text3("Provider returned 5xx (", n.as_str(), ")")
            },
            ConnectorError::Unauthorized =>
                "Unauthorized — the BYOK key supplied for this provider was rejected".to_string(),
            ConnectorError::RateLimited => "Rate limited".to_string(),
            ConnectorError::Timeout => "Timeout".to_string(),
            ConnectorError::BadResponse(e) => text2("Bad response: ", e.as_str()),
            ConnectorError::Serde(e) => text2("Serialization: ", e.as_str()),
            ConnectorError::CircuitOpen => "Circuit breaker open".to_string(),
            ConnectorError::NotImplemented(e) => text2("Not implemented: ", e.as_str()),
            ConnectorError::MissingKey(p) => text3(
                "Missing BYOK key: no API key supplied for provider '",
                p.as_str(),
                "' (directly or via OpenRouter)",
            ),
        }
    }
}

// Requests.

/// A chat completion request.
#[derive(Debug)]
pub struct ChatCompletionRequest {
    pub model: String,
    pub messages: Vec<ChatMessage>,
    /// A JSON number.
    pub temperature: Option<serde_json::Value>,
    pub max_tokens: Option<u32>,
    /// A JSON number.
    pub top_p: Option<serde_json::Value>,
    pub stream: Option<bool>,
    /// The model that is called beside the routed one, for comparison. No provider is sent this.
    pub shadow_model: Option<String>,
}

/// A message of a conversation.
#[derive(Debug)]
pub struct ChatMessage {
    pub role: String,
    pub content: MessageContent,
}

/// A message by its contents.
pub struct MessageView {
    pub role: Seq<char>,
    pub content: ContentView,
}

/// A request by its contents.
pub struct RequestView {
    pub model: Seq<char>,
    pub messages: Seq<MessageView>,
    pub temperature: Option<JsonView>,
    pub max_tokens: Option<u32>,
    pub top_p: Option<JsonView>,
    pub stream: Option<bool>,
    pub shadow_model: Option<Seq<char>>,
}

/// A JSON value that may be absent, by what it holds.
pub open spec fn json_option_view(v: Option<serde_json::Value>) -> Option<JsonView> {
    match v {
        Some(v) => Some(json_view(v)),
        None => None,
    }
}

impl View for ChatMessage {
    type V = MessageView;

    open spec fn view(&self) -> MessageView {
        MessageView { role: self.role@, content: self.content@ }
    }
}

/// The messages of a list by their contents.
pub open spec fn message_views(messages: Seq<ChatMessage>) -> Seq<MessageView> {
    messages.map_values(|m: ChatMessage| m@)
}

impl View for ChatCompletionRequest {
    type V = RequestView;

    open spec fn view(&self) -> RequestView {
        RequestView {
            model: self.model@,
            messages: message_views(self.messages@),
            temperature: json_option_view(self.temperature),
            max_tokens: self.max_tokens,
            top_p: json_option_view(self.top_p),
            stream: self.stream,
            shadow_model: text_view(self.shadow_model),
        }
    }
}

fn copy_text(s: &Option<String>) -> (r: Option<String>)
    ensures
        text_view(r) == text_view(*s),
{
    match s {
        Some(s) => Some(s.clone()),
        None => None,
    }
}

fn copy_json(v: &Option<serde_json::Value>) -> (r: Option<serde_json::Value>)
    ensures
        json_option_view(r) == json_option_view(*v),
{
    match v {
        Some(v) => Some(json_clone(v)),
        None => None,
    }
}

fn copy_part(p: &ContentPart) -> (r: ContentPart)
    ensures
        r@ == p@,
{
    let kind = match &p.kind {
        PartKind::Text { text } => PartKind::Text { text: text.clone() },
        PartKind::ImageUrl { image_url } => PartKind::ImageUrl {
            image_url: ImageUrl {
                url: image_url.url.clone(),
                detail: copy_text(&image_url.detail),
            },
        },
        PartKind::ImageBase64 { image_data } => PartKind::ImageBase64 {
            image_data: ImageBase64 {
                media_type: image_data.media_type.clone(),
                data: image_data.data.clone(),
            },
        },
    };
    ContentPart { part_type: p.part_type.clone(), kind }
}

fn copy_content(c: &MessageContent) -> (r: MessageContent)
    ensures
        r@ == c@,
{
    match c {
        MessageContent::Text(s) => MessageContent::Text(s.clone()),
        MessageContent::Parts(parts) => {
            let ghost views = parts@.map_values(|p: ContentPart| p@);
            let mut out: Vec<ContentPart> = Vec::new();
            let mut i: usize = 0;
            while i < parts.len()
                invariant
                    views == parts@.map_values(|p: ContentPart| p@),
                    i <= parts@.len(),
                    out@.map_values(|p: ContentPart| p@) == views.take(i as int),
                decreases parts@.len() - i,
            {
                let ghost before = out@.map_values(|p: ContentPart| p@);
                out.push(copy_part(&parts[i]));
                assert(out@.map_values(|p: ContentPart| p@) == before.push(views[i as int]));
                i = i + 1;
            }
            assert(views.take(views.len() as int) == views);
            assert(out@.map_values(|p: ContentPart| p@) == parts@.map_values(|p: ContentPart| p@));
            MessageContent::Parts(out)
        },
    }
}

impl ChatCompletionRequest {
    /// The same request.
    pub fn copy(&self) -> (r: ChatCompletionRequest)
        ensures
            r@ == self@,
    {
        let ghost views = message_views(self.messages@);
        let mut out: Vec<ChatMessage> = Vec::new();
        let mut i: usize = 0;
        while i < self.messages.len()
            invariant
                views == message_views(self.messages@),
                i <= self.messages@.len(),
                message_views(out@) == views.take(i as int),
            decreases self.messages@.len() - i,
        {
            let ghost before = message_views(out@);
            let m = &self.messages[i];
            out.push(ChatMessage { role: m.role.clone(), content: copy_content(&m.content) });
            assert(message_views(out@) == before.push(views[i as int]));
            i = i + 1;
        }
        assert(views.take(views.len() as int) == views);
        ChatCompletionRequest {
            model: self.model.clone(),
            messages: out,
            temperature: copy_json(&self.temperature),
            max_tokens: self.max_tokens,
            top_p: copy_json(&self.top_p),
            stream: self.stream,
            shadow_model: copy_text(&self.shadow_model),
        }
    }
}

/// The system messages' texts, with a space between them.
pub open spec fn system_text(messages: Seq<MessageView>) -> Seq<char>
    decreases messages.len(),
{
    if messages.len() == 0 {
        seq![]
    } else {
        let before = system_text(messages.drop_last());
        if messages.last().role == "system"@ {
            (if before.len() == 0 {
                before
            } else {
                before.push(' ')
            }) + messages.last().content.text()
        } else {
            before
        }
    }
}

/// The messages that are not the system's.
pub open spec fn dialogue(messages: Seq<MessageView>) -> Seq<MessageView>
    decreases messages.len(),
{
    if messages.len() == 0 {
        seq![]
    } else {
        let before = dialogue(messages.drop_last());
        if messages.last().role == "system"@ {
            before
        } else {
            before.push(messages.last())
        }
    }
}

/// What Anthropic is sent for a list of messages.
pub open spec fn anthropic_messages(messages: Seq<MessageView>) -> Seq<JsonView> {
    messages.map_values(|m: MessageView| anthropic_message(m.role, m.content))
}

/// What Gemini is sent for a list of messages.
pub open spec fn gemini_messages(messages: Seq<MessageView>) -> Seq<JsonView> {
    messages.map_values(|m: MessageView| gemini_message(m.role, m.content))
}

/// What an OpenAI-compatible provider is sent for a list of messages.
pub open spec fn openai_messages(messages: Seq<MessageView>) -> Seq<JsonView> {
    messages.map_values(|m: MessageView| openai_message(m.role, m.content))
}

/// The text, or nothing where it is empty.
pub open spec fn unless_empty(s: Seq<char>) -> Option<Seq<char>> {
    if s.len() == 0 {
        None
    } else {
        Some(s)
    }
}

/// The text of the system messages so far with the next one's.
fn push_system_text(system: &mut String, content: &MessageContent)
    ensures
        final(system)@ == (if old(system)@.len() == 0 {
            old(system)@
        } else {
            old(system)@.push(' ')
        }) + content@.text(),
{
    if !system.as_str().is_empty() {
        system.push(' ');
    }
    let text = content.as_text();
    system.append(text.as_str());
}

/// Anthropic's messages and system text. Anthropic has no role for the system: what system messages
/// say goes into a field of its own.
pub fn build_anthropic_messages(messages: &[ChatMessage]) -> (r: (
    Vec<serde_json::Value>,
    Option<String>,
))
    ensures
        json_views(r.0@) == anthropic_messages(dialogue(message_views(messages@))),
        text_view(r.1) == unless_empty(system_text(message_views(messages@))),
{
    let ghost views = message_views(messages@);
    let mut system = String::new();
    let mut out: Vec<serde_json::Value> = Vec::new();
    let mut i: usize = 0;
    while i < messages.len()
        invariant
            views == message_views(messages@),
            i <= messages@.len(),
            system@ == system_text(views.take(i as int)),
            json_views(out@) == anthropic_messages(dialogue(views.take(i as int))),
        decreases messages@.len() - i,
    {
        let ghost before = json_views(out@);
        let ghost earlier = dialogue(views.take(i as int));
        let m = &messages[i];
        assert(views.take(i + 1).drop_last() == views.take(i as int));
        assert(views.take(i + 1).last() == m@);
        if same_text(m.role.as_str(), "system") {
            push_system_text(&mut system, &m.content);
        } else {
            out.push(anthropic_content(m.role.as_str(), &m.content));
            assert(json_views(out@) == before.push(anthropic_message(m.role@, m.content@)));
            assert(anthropic_messages(earlier.push(m@)) == anthropic_messages(earlier).push(
                anthropic_message(m.role@, m.content@),
            ));
        }
        i = i + 1;
    }
    assert(views.take(views.len() as int) == views);
    let system = if system.as_str().is_empty() {
        None
    } else {
        Some(system)
    };
    (out, system)
}

/// The body of a request to Anthropic.
#[derive(Debug)]
pub struct AnthropicBody {
    pub model: String,
    pub messages: Vec<serde_json::Value>,
    pub max_tokens: u32,
    /// A JSON number; left out where absent.
    pub temperature: Option<serde_json::Value>,
    /// Left out where absent.
    pub system: Option<String>,
    /// Whether the answer is wanted as a stream; left out where absent.
    pub stream: Option<bool>,
}

/// The body of a request to Anthropic by its contents.
pub struct AnthropicBodyView {
    pub model: Seq<char>,
    pub messages: Seq<JsonView>,
    pub max_tokens: u32,
    pub temperature: Option<JsonView>,
    pub system: Option<Seq<char>>,
    pub stream: Option<bool>,
}

impl View for AnthropicBody {
    type V = AnthropicBodyView;

    open spec fn view(&self) -> AnthropicBodyView {
        AnthropicBodyView {
            model: self.model@,
            messages: json_views(self.messages@),
            max_tokens: self.max_tokens,
            temperature: json_option_view(self.temperature),
            system: text_view(self.system),
            stream: self.stream,
        }
    }
}

/// What Anthropic is sent for a request. Anthropic demands a limit on the output.
pub open spec fn anthropic_body_of(req: RequestView) -> AnthropicBodyView {
    AnthropicBodyView {
        model: req.model,
        messages: anthropic_messages(dialogue(req.messages)),
        max_tokens: match req.max_tokens {
            Some(n) => n,
            None => DEFAULT_OUTPUT_TOKENS,
        },
        temperature: req.temperature,
        system: unless_empty(system_text(req.messages)),
        stream: None,
    }
}

/// The body of a request to Anthropic.
pub fn to_anthropic_body(req: &ChatCompletionRequest) -> (b: AnthropicBody)
    ensures
        b@ == anthropic_body_of(req@),
{
    let (messages, system) = build_anthropic_messages(req.messages.as_slice());
    let max_tokens: u32 = match req.max_tokens {
        Some(n) => n,
        None => DEFAULT_OUTPUT_TOKENS,
    };
    AnthropicBody {
        model: req.model.clone(),
        messages,
        max_tokens,
        temperature: copy_json(&req.temperature),
        system,
        stream: None,
    }
}

/// A JSON value, or null where it is absent.
pub open spec fn or_null(v: Option<JsonView>) -> JsonView {
    match v {
        Some(v) => v,
        None => JsonView::Null,
    }
}

/// A number as JSON, if there is one.
pub open spec fn number_option(n: Option<u32>) -> Option<JsonView> {
    match n {
        Some(n) => Some(JsonView::Number(decimal(n as nat))),
        None => None,
    }
}

/// Gemini's settings for a request.
pub open spec fn gemini_config(req: RequestView) -> JsonView {
    JsonView::Obj(
        map![
            "temperature"@ => or_null(req.temperature),
            "maxOutputTokens"@ => or_null(number_option(req.max_tokens)),
            "topP"@ => or_null(req.top_p),
        ],
    )
}

/// Gemini's system instruction.
pub open spec fn gemini_instruction(text: Seq<char>) -> JsonView {
    JsonView::Obj(
        map![
            "role"@ => jstr("system"@),
            "parts"@ => JsonView::Arr(seq![JsonView::Obj(map!["text"@ => jstr(text)])]),
        ],
    )
}

/// What Gemini is sent for a request.
pub open spec fn gemini_body_of(req: RequestView) -> JsonView {
    let body = map![
        "contents"@ => JsonView::Arr(gemini_messages(dialogue(req.messages))),
        "generationConfig"@ => gemini_config(req),
    ];
    match unless_empty(system_text(req.messages)) {
        Some(text) => JsonView::Obj(body.insert("systemInstruction"@, gemini_instruction(text))),
        None => JsonView::Obj(body),
    }
}

fn json_or_null(v: &Option<serde_json::Value>) -> (r: serde_json::Value)
    ensures
        json_view(r) == or_null(json_option_view(*v)),
{
    match v {
        Some(v) => json_clone(v),
        None => json_null(),
    }
}

/// The body of a request to Gemini.
pub fn to_gemini_body(req: &ChatCompletionRequest) -> (v: serde_json::Value)
    ensures
        json_view(v) == gemini_body_of(req@),
{
    let ghost views = message_views(req.messages@);
    let mut system = String::new();
    let mut contents: Vec<serde_json::Value> = Vec::new();
    let mut i: usize = 0;
    while i < req.messages.len()
        invariant
            views == message_views(req.messages@),
            i <= req.messages@.len(),
            system@ == system_text(views.take(i as int)),
            json_views(contents@) == gemini_messages(dialogue(views.take(i as int))),
        decreases req.messages@.len() - i,
    {
        let ghost before = json_views(contents@);
        let ghost earlier = dialogue(views.take(i as int));
        let m = &req.messages[i];
        assert(views.take(i + 1).drop_last() == views.take(i as int));
        assert(views.take(i + 1).last() == m@);
        if same_text(m.role.as_str(), "system") {
            push_system_text(&mut system, &m.content);
        } else {
            contents.push(gemini_content(m.role.as_str(), &m.content));
            assert(json_views(contents@) == before.push(gemini_message(m.role@, m.content@)));
            assert(gemini_messages(earlier.push(m@)) == gemini_messages(earlier).push(
                gemini_message(m.role@, m.content@),
            ));
        }
        i = i + 1;
    }
    assert(views.take(views.len() as int) == views);

    let mut config = no_fields();
    set_field(&mut config, "temperature", json_or_null(&req.temperature));
    let limit = match req.max_tokens {
        Some(n) => json_number(n),
        None => json_null(),
    };
    set_field(&mut config, "maxOutputTokens", limit);
    set_field(&mut config, "topP", json_or_null(&req.top_p));

    let mut body = no_fields();
    set_field(&mut body, "contents", json_array(contents));
    set_field(&mut body, "generationConfig", json_object(config));
    if !system.as_str().is_empty() {
        let mut part = no_fields();
        set_field(&mut part, "text", json_str(system.as_str()));
        let mut parts: Vec<serde_json::Value> = Vec::new();
        parts.push(json_object(part));
        assert(json_views(parts@) == seq![JsonView::Obj(map!["text"@ => jstr(system@)])]);
        let mut instruction = no_fields();
        set_field(&mut instruction, "role", json_str("system"));
        set_field(&mut instruction, "parts", json_array(parts));
        set_field(&mut body, "systemInstruction", json_object(instruction));
    }
    json_object(body)
}

/// The fields with one more, where there is a value for it.
pub open spec fn with_field(
    m: Map<Seq<char>, JsonView>,
    name: Seq<char>,
    v: Option<JsonView>,
) -> Map<Seq<char>, JsonView> {
    match v {
        Some(v) => m.insert(name, v),
        None => m,
    }
}

/// What an OpenAI-compatible provider is sent for a request. Settings that are absent are left out.
pub open spec fn openai_body_of(req: RequestView) -> JsonView {
    let body = map![
        "model"@ => jstr(req.model),
        "messages"@ => JsonView::Arr(openai_messages(req.messages)),
    ];
    let body = with_field(body, "temperature"@, req.temperature);
    let body = with_field(body, "max_tokens"@, number_option(req.max_tokens));
    let body = with_field(body, "top_p"@, req.top_p);
    let body = with_field(
        body,
        "stream"@,
        match req.stream {
            Some(b) => Some(JsonView::Bool(b)),
            None => None,
        },
    );
    JsonView::Obj(body)
}

/// The body of a request to an OpenAI-compatible provider.
pub fn build_openai_compatible_body(req: &ChatCompletionRequest) -> (v: serde_json::Value)
    ensures
        json_view(v) == openai_body_of(req@),
{
    let ghost views = message_views(req.messages@);
    let ghost all = openai_messages(views);
    let mut messages: Vec<serde_json::Value> = Vec::new();
    let mut i: usize = 0;
    while i < req.messages.len()
        invariant
            views == message_views(req.messages@),
            all == openai_messages(views),
            i <= req.messages@.len(),
            json_views(messages@) == all.take(i as int),
        decreases req.messages@.len() - i,
    {
        let ghost before = json_views(messages@);
        let m = &req.messages[i];
        messages.push(openai_compatible_content(m.role.as_str(), &m.content));
        assert(views[i as int] == m@);
        assert(json_views(messages@) == before.push(all[i as int]));
        i = i + 1;
    }
    assert(all.take(all.len() as int) == all);

    let mut body = no_fields();
    set_field(&mut body, "model", json_str(req.model.as_str()));
    set_field(&mut body, "messages", json_array(messages));
    match &req.temperature {
        Some(t) => set_field(&mut body, "temperature", json_clone(t)),
        None => {},
    }
    match req.max_tokens {
        Some(n) => set_field(&mut body, "max_tokens", json_number(n)),
        None => {},
    }
    match &req.top_p {
        Some(t) => set_field(&mut body, "top_p", json_clone(t)),
        None => {},
    }
    match req.stream {
        Some(b) => set_field(&mut body, "stream", json_bool(b)),
        None => {},
    }
    json_object(body)
}

/// No provider is told of a shadow model: what is sent is the same whatever the request says of it.
pub proof fn law_shadow_model_is_not_sent(req: RequestView, shadow: Option<Seq<char>>)
    ensures
        openai_body_of(req) == openai_body_of(RequestView { shadow_model: shadow, ..req }),
        gemini_body_of(req) == gemini_body_of(RequestView { shadow_model: shadow, ..req }),
        anthropic_body_of(req) == anthropic_body_of(RequestView { shadow_model: shadow, ..req }),
{
}

/// No message of the system is sent to Anthropic or Gemini as a message of the dialogue.
pub proof fn law_dialogue_has_no_system_message(messages: Seq<MessageView>)
    ensures
        forall|i: int|
            0 <= i < dialogue(messages).len() ==> (#[trigger] dialogue(messages)[i]).role
                != "system"@,
    decreases messages.len(),
{
    if messages.len() > 0 {
        law_dialogue_has_no_system_message(messages.drop_last());
    }
}

/// The dialogue loses no message but the system's: it is those messages whose role is not `system`, in
/// their order.
pub proof fn law_dialogue_is_all_but_the_system(messages: Seq<MessageView>)
    ensures
        dialogue(messages) == messages.filter(|m: MessageView| m.role != "system"@),
    decreases messages.len(),
{
    reveal(Seq::filter);
    if messages.len() > 0 {
        law_dialogue_is_all_but_the_system(messages.drop_last());
    }
}

/// What is sent of two conversations one after the other is what is sent of each; a message that is
/// not the system's is sent, and a conversation without the system is sent whole.
pub proof fn law_dialogue_keeps_every_turn(first: Seq<MessageView>, second: Seq<MessageView>)
    ensures
        dialogue(first + second) == dialogue(first) + dialogue(second),
        forall|i: int|
            0 <= i < first.len() && (#[trigger] first[i]).role != "system"@ ==> dialogue(
                first,
            ).contains(first[i]),
        (forall|i: int| 0 <= i < first.len() ==> (#[trigger] first[i]).role != "system"@)
            ==> dialogue(first) == first,
        dialogue(first).len() <= first.len(),
    decreases first.len() + second.len(),
{
    if second.len() > 0 {
        law_dialogue_keeps_every_turn(first, second.drop_last());
        assert((first + second).drop_last() == first + second.drop_last());
        assert((first + second).last() == second.last());
        assert(dialogue(first + second) == dialogue(first) + dialogue(second));
    } else {
        assert(first + second == first);
        assert(dialogue(first) + dialogue(second) == dialogue(first));
        if first.len() > 0 {
            let before = first.drop_last();
            law_dialogue_keeps_every_turn(before, second);
            assert(before.push(first.last()) == first);
            assert forall|i: int|
                0 <= i < first.len() && (#[trigger] first[i]).role != "system"@ implies dialogue(
                first,
            ).contains(first[i]) by {
                if i < before.len() {
                    assert(before[i] == first[i]);
                    let k = choose|k: int|
                        0 <= k < dialogue(before).len() && dialogue(before)[k] == first[i];
                    assert(dialogue(first)[k] == first[i]);
                } else {
                    assert(dialogue(first).last() == first[i]);
                }
            }
            if forall|i: int| 0 <= i < first.len() ==> (#[trigger] first[i]).role != "system"@ {
                assert forall|i: int| 0 <= i < before.len() implies (#[trigger] before[i]).role
                    != "system"@ by {
                    assert(before[i] == first[i]);
                }
                assert(first[first.len() - 1].role != "system"@);
                assert(dialogue(before) == before);
            }
        }
    }
}

/// What the system says is said once and in order, with a space between two messages: a message of
/// another role adds nothing, the first message of the system is the text itself, and each later one
/// follows behind a space.
pub proof fn law_system_text_is_all_the_system_says(messages: Seq<MessageView>, m: MessageView)
    ensures
        system_text(Seq::<MessageView>::empty()).len() == 0,
        m.role != "system"@ ==> system_text(messages.push(m)) == system_text(messages),
        m.role == "system"@ && system_text(messages).len() == 0 ==> system_text(messages.push(m))
            == m.content.text(),
        m.role == "system"@ && system_text(messages).len() > 0 ==> system_text(messages.push(m))
            == system_text(messages) + seq![' '] + m.content.text(),
{
    assert(messages.push(m).drop_last() == messages);
    assert(system_text(messages).push(' ') == system_text(messages) + seq![' ']);
    if system_text(messages).len() == 0 {
        assert(system_text(messages) + m.content.text() == m.content.text());
    }
}

/// Anthropic and Gemini get one message for each turn of the dialogue, in its order, and an
/// OpenAI-compatible provider one for each message of the request.
pub proof fn law_every_turn_is_sent_in_its_place(messages: Seq<MessageView>, i: int)
    ensures
        anthropic_messages(messages).len() == messages.len(),
        gemini_messages(messages).len() == messages.len(),
        openai_messages(messages).len() == messages.len(),
        0 <= i < messages.len() ==> {
            &&& anthropic_messages(messages)[i] == anthropic_message(
                messages[i].role,
                messages[i].content,
            )
            &&& gemini_messages(messages)[i] == gemini_message(
                messages[i].role,
                messages[i].content,
            )
            &&& openai_messages(messages)[i] == openai_message(
                messages[i].role,
                messages[i].content,
            )
        },
{
}

/// Anthropic gets the request's own model, its turns, its limit or 1024 tokens, its temperature, and
/// what the system says, where it says anything.
pub proof fn law_anthropic_gets_the_request(req: RequestView)
    ensures
        ({
            let b = anthropic_body_of(req);
            let turns = req.messages.filter(|m: MessageView| m.role != "system"@);
            &&& b.model == req.model
            &&& b.messages == anthropic_messages(turns)
            &&& req.max_tokens matches Some(n) ==> b.max_tokens == n
            &&& req.max_tokens is None ==> b.max_tokens == 1024
            &&& b.temperature == req.temperature
            &&& b.system is Some <==> system_text(req.messages).len() > 0
            &&& b.system matches Some(s) ==> s == system_text(req.messages)
            &&& b.stream is None
        }),
{
    law_dialogue_is_all_but_the_system(req.messages);
}

/// Gemini gets the request's turns and settings, each setting null where the request has none, and what
/// the system says, where it says anything.
pub proof fn law_gemini_gets_the_request(req: RequestView)
    ensures
        ({
            let b = gemini_body_of(req);
            let turns = req.messages.filter(|m: MessageView| m.role != "system"@);
            let config = at(b, "generationConfig"@);
            &&& b is Obj
            &&& at(b, "contents"@) == JsonView::Arr(gemini_messages(turns))
            &&& config is Obj
            &&& names(config) == set!["temperature"@, "maxOutputTokens"@, "topP"@]
            &&& req.temperature matches Some(t) ==> at(config, "temperature"@) == t
            &&& req.temperature is None ==> at(config, "temperature"@) is Null
            &&& req.max_tokens matches Some(n) ==> at(config, "maxOutputTokens"@)
                == JsonView::Number(decimal(n as nat))
            &&& req.max_tokens is None ==> at(config, "maxOutputTokens"@) is Null
            &&& req.top_p matches Some(t) ==> at(config, "topP"@) == t
            &&& req.top_p is None ==> at(config, "topP"@) is Null
            &&& names(b).contains("systemInstruction"@) <==> system_text(req.messages).len() > 0
            &&& system_text(req.messages).len() > 0 ==> {
                let said = at(b, "systemInstruction"@);
                &&& said is Obj
                &&& at(said, "role"@) == JsonView::Str("system"@)
                &&& at(said, "parts"@) is Arr
                &&& at(said, "parts"@)->Arr_0.len() == 1
                &&& at(said, "parts"@)->Arr_0[0] is Obj
                &&& at(at(said, "parts"@)->Arr_0[0], "text"@) == JsonView::Str(
                    system_text(req.messages),
                )
            }
        }),
{
    law_dialogue_is_all_but_the_system(req.messages);
    reveal_strlit("contents");
    reveal_strlit("generationConfig");
    reveal_strlit("systemInstruction");
    reveal_strlit("temperature");
    reveal_strlit("maxOutputTokens");
    reveal_strlit("topP");
    reveal_strlit("role");
    reveal_strlit("parts");
    assert("contents"@.len() == 8 && "generationConfig"@.len() == 16);
    assert("systemInstruction"@.len() == 17 && "temperature"@.len() == 11);
    assert("maxOutputTokens"@.len() == 15 && "topP"@.len() == 4);
    assert("role"@.len() == 4 && "parts"@.len() == 5);
    assert(names(gemini_config(req)) =~= set!["temperature"@, "maxOutputTokens"@, "topP"@]);
}

/// An OpenAI-compatible provider gets the request's model, all its messages, and those of its settings
/// that it has; nothing else.
pub proof fn law_openai_gets_the_request(req: RequestView)
    ensures
        ({
            let b = openai_body_of(req);
            &&& b is Obj
            &&& at(b, "model"@) == JsonView::Str(req.model)
            &&& at(b, "messages"@) == JsonView::Arr(openai_messages(req.messages))
            &&& names(b).contains("temperature"@) <==> req.temperature is Some
            &&& req.temperature matches Some(t) ==> at(b, "temperature"@) == t
            &&& names(b).contains("max_tokens"@) <==> req.max_tokens is Some
            &&& req.max_tokens matches Some(n) ==> at(b, "max_tokens"@) == JsonView::Number(
                decimal(n as nat),
            )
            &&& names(b).contains("top_p"@) <==> req.top_p is Some
            &&& req.top_p matches Some(t) ==> at(b, "top_p"@) == t
            &&& names(b).contains("stream"@) <==> req.stream is Some
            &&& req.stream matches Some(s) ==> at(b, "stream"@) == JsonView::Bool(s)
            &&& names(b).subset_of(
                set!["model"@, "messages"@, "temperature"@, "max_tokens"@, "top_p"@, "stream"@],
            )
        }),
{
    reveal_strlit("model");
    reveal_strlit("messages");
    reveal_strlit("temperature");
    reveal_strlit("max_tokens");
    reveal_strlit("top_p");
    reveal_strlit("stream");
    assert("model"@.len() == 5 && "messages"@.len() == 8 && "temperature"@.len() == 11);
    assert("max_tokens"@.len() == 10 && "top_p"@.len() == 5 && "stream"@.len() == 6);
    assert("model"@[0] == 'm' && "top_p"@[0] == 't');
}

/// A request is seen with all that it holds, each message in its place.
pub proof fn law_requests_are_seen_whole(req: ChatCompletionRequest, i: int)
    ensures
        req@.model == req.model@,
        req@.messages.len() == req.messages@.len(),
        0 <= i < req.messages@.len() ==> req@.messages[i].role == req.messages@[i].role@
            && req@.messages[i].content == req.messages@[i].content@,
        req@.temperature is Some <==> req.temperature is Some,
        req.temperature matches Some(t) ==> req@.temperature == Some(json_view(t)),
        req@.max_tokens == req.max_tokens,
        req@.top_p is Some <==> req.top_p is Some,
        req.top_p matches Some(t) ==> req@.top_p == Some(json_view(t)),
        req@.stream == req.stream,
        req@.shadow_model is Some <==> req.shadow_model is Some,
        req.shadow_model matches Some(m) ==> req@.shadow_model == Some(m@),
{
}

/// The text of an error begins with what has failed and ends with the reason that was given.
pub proof fn law_error_texts_tell_the_reason(reason: Seq<char>, status: u16)
    ensures
        error_text(ErrorView::Http(reason)) == "HTTP error: "@ + reason,
        error_text(ErrorView::BadResponse(reason)) == "Bad response: "@ + reason,
        error_text(ErrorView::Serde(reason)) == "Serialization: "@ + reason,
        error_text(ErrorView::NotImplemented(reason)) == "Not implemented: "@ + reason,
        error_text(ErrorView::MissingKey(reason))
            == "Missing BYOK key: no API key supplied for provider '"@ + reason
            + "' (directly or via OpenRouter)"@,
        error_text(ErrorView::ServerError(status)) == "Provider returned 5xx ("@ + decimal(
            status as nat,
        ) + ")"@,
        error_text(ErrorView::RateLimited) == "Rate limited"@,
        error_text(ErrorView::Timeout) == "Timeout"@,
        error_text(ErrorView::CircuitOpen) == "Circuit breaker open"@,
        error_text(ErrorView::Unauthorized)
            == "Unauthorized — the BYOK key supplied for this provider was rejected"@,
{
}

/// An error is seen as what it is, with all that it holds.
pub proof fn law_errors_are_seen_whole(e: ConnectorError)
    ensures
        match e {
            ConnectorError::Http(s) => e@ == ErrorView::Http(s@),
            ConnectorError::ServerError { status } => e@ == ErrorView::ServerError(status),
            ConnectorError::Unauthorized => e@ is Unauthorized,
            ConnectorError::RateLimited => e@ is RateLimited,
            ConnectorError::Timeout => e@ is Timeout,
            ConnectorError::BadResponse(s) => e@ == ErrorView::BadResponse(s@),
            ConnectorError::Serde(s) => e@ == ErrorView::Serde(s@),
            ConnectorError::CircuitOpen => e@ is CircuitOpen,
            ConnectorError::NotImplemented(s) => e@ == ErrorView::NotImplemented(s@),
            ConnectorError::MissingKey(s) => e@ == ErrorView::MissingKey(s@),
        },
{
}

/// The body for Anthropic is seen with all that it holds.
pub proof fn law_anthropic_bodies_are_seen_whole(b: AnthropicBody, i: int)
    ensures
        b@.model == b.model@,
        b@.messages.len() == b.messages@.len(),
        0 <= i < b.messages@.len() ==> b@.messages[i] == json_view(b.messages@[i]),
        b@.max_tokens == b.max_tokens,
        b@.temperature is Some <==> b.temperature is Some,
        b.temperature matches Some(t) ==> b@.temperature == Some(json_view(t)),
        b@.system is Some <==> b.system is Some,
        b.system matches Some(s) ==> b@.system == Some(s@),
        b@.stream == b.stream,
{
}

} // verus!
