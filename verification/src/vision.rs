//! Messages with text and images, what each wire format makes of them, and the choice of a model
//! that can see.

use crate::json::{
    JsonView, json_array, json_bool, json_clone, json_number, json_object, json_str, json_view,
    json_views, no_fields, set_field,
};
use crate::provider::{Provider, provider_name};
use crate::text::{decimal, join, joined, same_text, text_view, texts};
use vstd::prelude::*;
use vstd::string::*;

verus! {

/// A chat message with text or images.
#[derive(Debug)]
pub struct MultimodalMessage {
    pub role: String,
    pub content: MessageContent,
}

/// The content of a message: plain text, or a list of parts.
#[derive(Debug)]
pub enum MessageContent {
    Text(String),
    Parts(Vec<ContentPart>),
}

/// One part of a message.
#[derive(Debug)]
pub struct ContentPart {
    /// The kind of the part as the sender names it.
    pub part_type: String,
    pub kind: PartKind,
}

/// What a part holds.
#[derive(Debug)]
pub enum PartKind {
    Text { text: String },
    ImageUrl { image_url: ImageUrl },
    ImageBase64 { image_data: ImageBase64 },
}

/// An image by its URL.
#[derive(Debug)]
pub struct ImageUrl {
    pub url: String,
    /// `low`, `high` or `auto`: how closely the image is looked at, and at what cost.
    pub detail: Option<String>,
}

/// An inline image.
#[derive(Debug)]
pub struct ImageBase64 {
    /// The MIME type, such as `image/png`.
    pub media_type: String,
    /// The data in base64, without a data-URI prefix.
    pub data: String,
}

/// What a part holds, by its contents.
pub enum KindView {
    Text { text: Seq<char> },
    ImageUrl { url: Seq<char>, detail: Option<Seq<char>> },
    ImageBase64 { media_type: Seq<char>, data: Seq<char> },
}

/// A part by its contents.
pub struct PartView {
    pub part_type: Seq<char>,
    pub kind: KindView,
}

/// A message's content by what it holds.
pub enum ContentView {
    Text(Seq<char>),
    Parts(Seq<PartView>),
}

impl View for PartKind {
    type V = KindView;

    open spec fn view(&self) -> KindView {
        match self {
            PartKind::Text { text } => KindView::Text { text: text@ },
            PartKind::ImageUrl { image_url } => KindView::ImageUrl {
                url: image_url.url@,
                detail: text_view(image_url.detail),
            },
            PartKind::ImageBase64 { image_data } => KindView::ImageBase64 {
                media_type: image_data.media_type@,
                data: image_data.data@,
            },
        }
    }
}

impl View for ContentPart {
    type V = PartView;

    open spec fn view(&self) -> PartView {
        PartView { part_type: self.part_type@, kind: self.kind@ }
    }
}

impl View for MessageContent {
    type V = ContentView;

    open spec fn view(&self) -> ContentView {
        match self {
            MessageContent::Text(s) => ContentView::Text(s@),
            MessageContent::Parts(parts) => ContentView::Parts(
                parts@.map_values(|p: ContentPart| p@),
            ),
        }
    }
}

/// The text parts among a list of parts, in their order.
pub open spec fn text_parts(parts: Seq<PartView>) -> Seq<Seq<char>>
    decreases parts.len(),
{
    if parts.len() == 0 {
        seq![]
    } else {
        let before = text_parts(parts.drop_last());
        match parts.last().kind {
            KindView::Text { text } => before.push(text),
            _ => before,
        }
    }
}

/// Whether a part is an image.
pub open spec fn is_image(p: PartView) -> bool {
    !(p.kind is Text)
}

impl ContentView {
    /// The text of a message: its text parts with a space between them.
    pub open spec fn text(self) -> Seq<char> {
        match self {
            ContentView::Text(s) => s,
            ContentView::Parts(parts) => joined(text_parts(parts), " "@),
        }
    }

    /// Whether a message holds an image.
    pub open spec fn shows_image(self) -> bool {
        match self {
            ContentView::Text(_) => false,
            ContentView::Parts(parts) => exists|i: int|
                0 <= i < parts.len() && is_image(#[trigger] parts[i]),
        }
    }
}

impl MessageContent {
    /// All text of the message as one string, for counting tokens and for caching.
    pub fn as_text(&self) -> (s: String)
        ensures
            s@ == self@.text(),
    {
        match self {
            MessageContent::Text(s) => s.clone(),
            MessageContent::Parts(parts) => {
                let ghost views = parts@.map_values(|p: ContentPart| p@);
                let mut found: Vec<String> = Vec::new();
                let mut i: usize = 0;
                while i < parts.len()
                    invariant
                        views == parts@.map_values(|p: ContentPart| p@),
                        i <= parts@.len(),
                        texts(found@) == text_parts(views.take(i as int)),
                    decreases parts@.len() - i,
                {
                    let ghost before = texts(found@);
                    assert(views.take(i + 1).drop_last() == views.take(i as int));
                    assert(views.take(i + 1).last() == parts@[i as int]@);
                    match &parts[i].kind {
                        PartKind::Text { text } => {
                            found.push(text.clone());
                            assert(texts(found@) == before.push(text@));
                        },
                        _ => {},
                    }
                    i = i + 1;
                }
                assert(views.take(views.len() as int) == views);
                join(&found, " ")
            },
        }
    }

    /// Whether the message holds at least one image.
    pub fn has_image(&self) -> (r: bool)
        ensures
            r == self@.shows_image(),
    {
        match self {
            MessageContent::Text(_) => false,
            MessageContent::Parts(parts) => {
                let ghost views = parts@.map_values(|p: ContentPart| p@);
                let mut i: usize = 0;
                while i < parts.len()
                    invariant
                        views == parts@.map_values(|p: ContentPart| p@),
                        self@ == ContentView::Parts(views),
                        i <= parts@.len(),
                        forall|j: int| 0 <= j < i ==> !is_image(#[trigger] views[j]),
                    decreases parts@.len() - i,
                {
                    assert(views[i as int] == parts@[i as int]@);
                    match &parts[i].kind {
                        PartKind::Text { .. } => {},
                        _ => {
                            proof {
                                let k = i as int;
                                assert(0 <= k < views.len() && is_image(views[k]));
                                assert(self@->Parts_0 == views);
                                assert(is_image(self@->Parts_0[k]));
                                assert(self@.shows_image());
                            }
                            return true;
                        },
                    }
                    i = i + 1;
                }
                false
            },
        }
    }
}

// The wire formats.

/// A JSON string.
pub open spec fn jstr(s: Seq<char>) -> JsonView {
    JsonView::Str(s)
}

/// What Anthropic is sent for a part.
pub open spec fn anthropic_part(kind: KindView) -> JsonView {
    match kind {
        KindView::Text { text } => JsonView::Obj(
            map!["type"@ => jstr("text"@), "text"@ => jstr(text)],
        ),
        KindView::ImageUrl { url, detail } => JsonView::Obj(
            map![
                "type"@ => jstr("image"@),
                "source"@ => JsonView::Obj(map!["type"@ => jstr("url"@), "url"@ => jstr(url)]),
            ],
        ),
        KindView::ImageBase64 { media_type, data } => JsonView::Obj(
            map![
                "type"@ => jstr("image"@),
                "source"@ => JsonView::Obj(
                    map![
                        "type"@ => jstr("base64"@),
                        "media_type"@ => jstr(media_type),
                        "data"@ => jstr(data),
                    ],
                ),
            ],
        ),
    }
}

/// What an OpenAI-compatible provider is sent for a part. An inline image becomes a data URI.
pub open spec fn openai_part(kind: KindView) -> JsonView {
    match kind {
        KindView::Text { text } => JsonView::Obj(
            map!["type"@ => jstr("text"@), "text"@ => jstr(text)],
        ),
        KindView::ImageUrl { url, detail } => JsonView::Obj(
            map![
                "type"@ => jstr("image_url"@),
                "image_url"@ => JsonView::Obj(
                    map![
                        "url"@ => jstr(url),
                        "detail"@ => jstr(
                            match detail {
                                Some(d) => d,
                                None => "auto"@,
                            },
                        ),
                    ],
                ),
            ],
        ),
        KindView::ImageBase64 { media_type, data } => JsonView::Obj(
            map![
                "type"@ => jstr("image_url"@),
                "image_url"@ => JsonView::Obj(
                    map!["url"@ => jstr(data_uri(media_type, data))],
                ),
            ],
        ),
    }
}

/// The data URI of an inline image.
pub open spec fn data_uri(media_type: Seq<char>, data: Seq<char>) -> Seq<char> {
    "data:"@ + media_type + ";base64,"@ + data
}

/// What Gemini is sent for a part.
pub open spec fn gemini_part(kind: KindView) -> JsonView {
    match kind {
        KindView::Text { text } => JsonView::Obj(map!["text"@ => jstr(text)]),
        KindView::ImageUrl { url, detail } => JsonView::Obj(
            map![
                "fileData"@ => JsonView::Obj(
                    map!["mimeType"@ => jstr("image/jpeg"@), "fileUri"@ => jstr(url)],
                ),
            ],
        ),
        KindView::ImageBase64 { media_type, data } => JsonView::Obj(
            map![
                "inlineData"@ => JsonView::Obj(
                    map!["mimeType"@ => jstr(media_type), "data"@ => jstr(data)],
                ),
            ],
        ),
    }
}

/// What Anthropic is sent for a message.
pub open spec fn anthropic_message(role: Seq<char>, content: ContentView) -> JsonView {
    JsonView::Obj(
        map![
            "role"@ => jstr(role),
            "content"@ => match content {
                ContentView::Text(t) => jstr(t),
                ContentView::Parts(parts) => JsonView::Arr(
                    parts.map_values(|p: PartView| anthropic_part(p.kind)),
                ),
            },
        ],
    )
}

/// What an OpenAI-compatible provider is sent for a message.
pub open spec fn openai_message(role: Seq<char>, content: ContentView) -> JsonView {
    JsonView::Obj(
        map![
            "role"@ => jstr(role),
            "content"@ => match content {
                ContentView::Text(t) => jstr(t),
                ContentView::Parts(parts) => JsonView::Arr(
                    parts.map_values(|p: PartView| openai_part(p.kind)),
                ),
            },
        ],
    )
}

/// The role under which Gemini knows a sender.
pub open spec fn gemini_role(role: Seq<char>) -> Seq<char> {
    if role == "assistant"@ {
        "model"@
    } else {
        "user"@
    }
}

/// What Gemini is sent for a message.
pub open spec fn gemini_message(role: Seq<char>, content: ContentView) -> JsonView {
    JsonView::Obj(
        map![
            "role"@ => jstr(gemini_role(role)),
            "parts"@ => match content {
                ContentView::Text(t) => JsonView::Arr(
                    seq![JsonView::Obj(map!["text"@ => jstr(t)])],
                ),
                ContentView::Parts(parts) => JsonView::Arr(
                    parts.map_values(|p: PartView| gemini_part(p.kind)),
                ),
            },
        ],
    )
}

/// A JSON object with one string.
fn object1(name: &str, value: &str) -> (v: serde_json::Value)
    ensures
        json_view(v) == JsonView::Obj(map![name@ => jstr(value@)]),
{
    let mut o = no_fields();
    set_field(&mut o, name, json_str(value));
    json_object(o)
}

/// A JSON object with two strings.
fn object2(name1: &str, value1: &str, name2: &str, value2: &str) -> (v: serde_json::Value)
    ensures
        json_view(v) == JsonView::Obj(map![name1@ => jstr(value1@), name2@ => jstr(value2@)]),
{
    let mut o = no_fields();
    set_field(&mut o, name1, json_str(value1));
    set_field(&mut o, name2, json_str(value2));
    json_object(o)
}

/// A JSON object with one value.
fn object_of(name: &str, value: serde_json::Value) -> (v: serde_json::Value)
    ensures
        json_view(v) == JsonView::Obj(map![name@ => json_view(value)]),
{
    let mut o = no_fields();
    set_field(&mut o, name, value);
    json_object(o)
}

/// A JSON object with a string and a value.
fn object_with(name1: &str, value1: &str, name2: &str, value2: serde_json::Value) -> (v:
    serde_json::Value)
    ensures
        json_view(v) == JsonView::Obj(map![name1@ => jstr(value1@), name2@ => json_view(value2)]),
{
    let mut o = no_fields();
    set_field(&mut o, name1, json_str(value1));
    set_field(&mut o, name2, value2);
    json_object(o)
}

fn to_anthropic_part(kind: &PartKind) -> (v: serde_json::Value)
    ensures
        json_view(v) == anthropic_part(kind@),
{
    match kind {
        PartKind::Text { text } => object2("type", "text", "text", text.as_str()),
        PartKind::ImageUrl { image_url } => {
            let source = object2("type", "url", "url", image_url.url.as_str());
            object_with("type", "image", "source", source)
        },
        PartKind::ImageBase64 { image_data } => {
            let mut o = no_fields();
            set_field(&mut o, "type", json_str("base64"));
            set_field(&mut o, "media_type", json_str(image_data.media_type.as_str()));
            set_field(&mut o, "data", json_str(image_data.data.as_str()));
            object_with("type", "image", "source", json_object(o))
        },
    }
}

fn to_openai_part(kind: &PartKind) -> (v: serde_json::Value)
    ensures
        json_view(v) == openai_part(kind@),
{
    match kind {
        PartKind::Text { text } => object2("type", "text", "text", text.as_str()),
        PartKind::ImageUrl { image_url } => {
            let detail = match &image_url.detail {
                Some(d) => d.as_str(),
                None => "auto",
            };
            let image = object2("url", image_url.url.as_str(), "detail", detail);
            object_with("type", "image_url", "image_url", image)
        },
        PartKind::ImageBase64 { image_data } => {
            let mut uri = "data:".to_string();
            uri.append(image_data.media_type.as_str());
            uri.append(";base64,");
            uri.append(image_data.data.as_str());
            let image = object1("url", uri.as_str());
            object_with("type", "image_url", "image_url", image)
        },
    }
}

fn to_gemini_part(kind: &PartKind) -> (v: serde_json::Value)
    ensures
        json_view(v) == gemini_part(kind@),
{
    match kind {
        PartKind::Text { text } => object1("text", text.as_str()),
        PartKind::ImageUrl { image_url } => {
            let file = object2("mimeType", "image/jpeg", "fileUri", image_url.url.as_str());
            object_of("fileData", file)
        },
        PartKind::ImageBase64 { image_data } => {
            let data = object2(
                "mimeType",
                image_data.media_type.as_str(),
                "data",
                image_data.data.as_str(),
            );
            object_of("inlineData", data)
        },
    }
}

/// What Anthropic is sent for a message of a role and a content.
pub fn anthropic_content(role: &str, content: &MessageContent) -> (v: serde_json::Value)
    ensures
        json_view(v) == anthropic_message(role@, content@),
{
    let body = match content {
        MessageContent::Text(t) => json_str(t.as_str()),
        MessageContent::Parts(parts) => {
            let ghost views = parts@.map_values(|p: ContentPart| p@);
            let ghost all = views.map_values(|p: PartView| anthropic_part(p.kind));
            let mut out: Vec<serde_json::Value> = Vec::new();
            let mut i: usize = 0;
            while i < parts.len()
                invariant
                    views == parts@.map_values(|p: ContentPart| p@),
                    all == views.map_values(|p: PartView| anthropic_part(p.kind)),
                    i <= parts@.len(),
                    json_views(out@) == all.take(i as int),
                decreases parts@.len() - i,
            {
                let ghost before = json_views(out@);
                out.push(to_anthropic_part(&parts[i].kind));
                assert(views[i as int] == parts@[i as int]@);
                assert(json_views(out@) == before.push(all[i as int]));
                i = i + 1;
            }
            assert(all.take(all.len() as int) == all);
            json_array(out)
        },
    };
    object_with("role", role, "content", body)
}

/// What an OpenAI-compatible provider is sent for a message of a role and a content.
pub fn openai_compatible_content(role: &str, content: &MessageContent) -> (v: serde_json::Value)
    ensures
        json_view(v) == openai_message(role@, content@),
{
    let body = match content {
        MessageContent::Text(t) => json_str(t.as_str()),
        MessageContent::Parts(parts) => {
            let ghost views = parts@.map_values(|p: ContentPart| p@);
            let ghost all = views.map_values(|p: PartView| openai_part(p.kind));
            let mut out: Vec<serde_json::Value> = Vec::new();
            let mut i: usize = 0;
            while i < parts.len()
                invariant
                    views == parts@.map_values(|p: ContentPart| p@),
                    all == views.map_values(|p: PartView| openai_part(p.kind)),
                    i <= parts@.len(),
                    json_views(out@) == all.take(i as int),
                decreases parts@.len() - i,
            {
                let ghost before = json_views(out@);
                out.push(to_openai_part(&parts[i].kind));
                assert(views[i as int] == parts@[i as int]@);
                assert(json_views(out@) == before.push(all[i as int]));
                i = i + 1;
            }
            assert(all.take(all.len() as int) == all);
            json_array(out)
        },
    };
    object_with("role", role, "content", body)
}

/// What Gemini is sent for a message of a role and a content.
pub fn gemini_content(role: &str, content: &MessageContent) -> (v: serde_json::Value)
    ensures
        json_view(v) == gemini_message(role@, content@),
{
    let gemini_name = if same_text(role, "assistant") {
        "model"
    } else {
        "user"
    };
    let mut out: Vec<serde_json::Value> = Vec::new();
    match content {
        MessageContent::Text(t) => {
            out.push(object1("text", t.as_str()));
            assert(json_views(out@) == seq![JsonView::Obj(map!["text"@ => jstr(t@)])]);
        },
        MessageContent::Parts(parts) => {
            let ghost views = parts@.map_values(|p: ContentPart| p@);
            let ghost all = views.map_values(|p: PartView| gemini_part(p.kind));
            let mut i: usize = 0;
            while i < parts.len()
                invariant
                    views == parts@.map_values(|p: ContentPart| p@),
                    all == views.map_values(|p: PartView| gemini_part(p.kind)),
                    i <= parts@.len(),
                    json_views(out@) == all.take(i as int),
                decreases parts@.len() - i,
            {
                let ghost before = json_views(out@);
                out.push(to_gemini_part(&parts[i].kind));
                assert(views[i as int] == parts@[i as int]@);
                assert(json_views(out@) == before.push(all[i as int]));
                i = i + 1;
            }
            assert(all.take(all.len() as int) == all);
        },
    }
    object_with("role", gemini_name, "parts", json_array(out))
}

/// A message in Anthropic's wire format.
pub fn to_anthropic_content(msg: &MultimodalMessage) -> (v: serde_json::Value)
    ensures
        json_view(v) == anthropic_message(msg.role@, msg.content@),
{
    anthropic_content(msg.role.as_str(), &msg.content)
}

/// A message in Gemini's wire format.
pub fn to_gemini_content(msg: &MultimodalMessage) -> (v: serde_json::Value)
    ensures
        json_view(v) == gemini_message(msg.role@, msg.content@),
{
    gemini_content(msg.role.as_str(), &msg.content)
}

/// A message in the wire format that every OpenAI-compatible provider accepts.
pub fn to_openai_compatible_content(msg: &MultimodalMessage) -> (v: serde_json::Value)
    ensures
        json_view(v) == openai_message(msg.role@, msg.content@),
{
    openai_compatible_content(msg.role.as_str(), &msg.content)
}

// The choice of a model that can see.

/// A model in the registry.
#[derive(Debug)]
pub struct ModelConfig {
    /// The id under which its provider knows it.
    pub api_id: String,
    pub display_name: String,
    pub provider: Provider,
    /// How many tokens of context it takes.
    pub context_window: u32,
    pub supports_vision: bool,
    pub open_weight: bool,
    /// How good the model is, as the bits of a double that is not below zero: such bits are ordered
    /// as the numbers are.
    pub quality_score: u64,
    /// The price of a million input tokens in cents, a JSON number.
    pub cost_per_1m_input: serde_json::Value,
    /// The price of a million output tokens in cents, a JSON number.
    pub cost_per_1m_output: serde_json::Value,
}

/// A model that was chosen, and why.
#[derive(Debug)]
pub struct RoutingDecision {
    pub model: ModelConfig,
    pub reason: String,
    /// How well the model scored, as the bits of a double.
    pub score: u64,
}

/// The output tokens that are assumed where a request sets no limit, and wherever a model that can
/// see is asked for.
pub const DEFAULT_OUTPUT_TOKENS: u32 = 1024;

/// Whether a request of so many tokens fits into a model's context.
pub open spec fn takes(m: ModelConfig, input_tokens: u32) -> bool {
    input_tokens < m.context_window
}

/// Whether the model at `k` is the best of those that take the request: none scores higher, and of
/// equals it is the last.
pub open spec fn is_best(models: Seq<ModelConfig>, k: int, input_tokens: u32) -> bool {
    &&& 0 <= k < models.len()
    &&& takes(models[k], input_tokens)
    &&& forall|j: int|
        0 <= j < models.len() && takes(#[trigger] models[j], input_tokens)
            ==> models[j].quality_score <= models[k].quality_score && (j > k
            ==> models[j].quality_score < models[k].quality_score)
}

/// What is chosen where the router has offered no model that can see: the best of the listed models
/// that take the request.
pub open spec fn last_resort(
    models: Seq<ModelConfig>,
    input_tokens: u32,
    r: Result<RoutingDecision, String>,
) -> bool {
    match r {
        Ok(d) => exists|k: int|
            {
                &&& #[trigger] is_best(models, k, input_tokens)
                &&& d.model == models[k]
                &&& d.score == models[k].quality_score
                &&& d.reason@ == models[k].display_name@
                    + " chosen as best available vision-capable model"@
            },
        Err(e) => {
            &&& forall|j: int| 0 <= j < models.len() ==> !takes(#[trigger] models[j], input_tokens)
            &&& e@ == "No vision-capable model available in registry"@
        },
    }
}

/// What is chosen, given the router's choice by the caller's priority, its choice by quality, and
/// the models that can see.
pub open spec fn vision_choice(
    preferred: Result<RoutingDecision, String>,
    by_quality: Result<RoutingDecision, String>,
    models: Seq<ModelConfig>,
    input_tokens: u32,
    r: Result<RoutingDecision, String>,
) -> bool {
    match preferred {
        Err(e) => r == preferred,
        Ok(d) => if d.model.supports_vision {
            r == preferred
        } else {
            match by_quality {
                Err(e) => r == by_quality,
                Ok(f) => if f.model.supports_vision {
                    r == by_quality
                } else {
                    last_resort(models, input_tokens, r)
                },
            }
        },
    }
}

proof fn lemma_best_so_far(models: Seq<ModelConfig>, i: int, k: int, input_tokens: u32)
    requires
        0 <= i < models.len(),
        is_best(models.take(i), k, input_tokens),
    ensures
        ({
            if takes(models[i], input_tokens) && models[i].quality_score
                >= models[k].quality_score {
                is_best(models.take(i + 1), i, input_tokens)
            } else {
                is_best(models.take(i + 1), k, input_tokens)
            }
        }),
{
    let seen = models.take(i);
    let next = models.take(i + 1);
    assert(next == seen.push(models[i]));
    assert forall|j: int| 0 <= j < i implies next[j] == seen[j] by {}
    assert(seen[k] == models[k]);
    assert forall|j: int| 0 <= j < next.len() && takes(#[trigger] next[j], input_tokens)
        implies j == i || next[j].quality_score <= models[k].quality_score && (j > k
        ==> next[j].quality_score < models[k].quality_score) by {
        if j < i {
            assert(takes(seen[j], input_tokens));
        }
    }
}

/// Chooses a model that can see: the router's choice by the caller's priority if that can, else its
/// choice by quality if that can, else the best of the models that can. Both choices are the
/// router's for the input tokens and the default number of output tokens.
pub fn select_vision_model(
    preferred: Result<RoutingDecision, String>,
    by_quality: Result<RoutingDecision, String>,
    vision_models: Vec<ModelConfig>,
    input_tokens: u32,
) -> (r: Result<RoutingDecision, String>)
    ensures
        vision_choice(preferred, by_quality, vision_models@, input_tokens, r),
{
    match preferred {
        Err(e) => {
            return Err(e);
        },
        Ok(d) => {
            if d.model.supports_vision {
                return Ok(d);
            }
        },
    }
    match by_quality {
        Err(e) => {
            return Err(e);
        },
        Ok(f) => {
            if f.model.supports_vision {
                return Ok(f);
            }
        },
    }
    let mut vision_models = vision_models;
    let ghost models = vision_models@;
    let mut best: Option<usize> = None;
    let mut i: usize = 0;
    while i < vision_models.len()
        invariant
            models == vision_models@,
            i <= models.len(),
            match best {
                Some(k) => k < i && is_best(models.take(i as int), k as int, input_tokens),
                None => forall|j: int| 0 <= j < i ==> !takes(#[trigger] models[j], input_tokens),
            },
        decreases models.len() - i,
    {
        let takes_it = input_tokens < vision_models[i].context_window;
        let better = match best {
            Some(k) => vision_models[i].quality_score >= vision_models[k].quality_score,
            None => true,
        };
        proof {
            if best is Some {
                lemma_best_so_far(models, i as int, best->0 as int, input_tokens);
            }
            assert(models.take(i + 1)[i as int] == models[i as int]);
        }
        if takes_it && better {
            best = Some(i);
        }
        i = i + 1;
    }
    assert(models.take(models.len() as int) == models);
    match best {
        Some(k) => {
            let model = vision_models.remove(k);
            let mut reason = model.display_name.clone();
            reason.append(" chosen as best available vision-capable model");
            let score = model.quality_score;
            assert(is_best(models, k as int, input_tokens));
            Ok(RoutingDecision { model, reason, score })
        },
        None => Err("No vision-capable model available in registry".to_string()),
    }
}

/// Whatever the router answers, a model that is chosen to see can see, if the listed models can.
pub proof fn law_vision_choice_can_see(
    preferred: Result<RoutingDecision, String>,
    by_quality: Result<RoutingDecision, String>,
    models: Seq<ModelConfig>,
    input_tokens: u32,
    r: Result<RoutingDecision, String>,
)
    requires
        vision_choice(preferred, by_quality, models, input_tokens, r),
        forall|j: int| 0 <= j < models.len() ==> (#[trigger] models[j]).supports_vision,
        r is Ok,
    ensures
        r->Ok_0.model.supports_vision,
{
}

/// What a listing shows of a model.
pub open spec fn model_entry(m: ModelConfig) -> JsonView {
    JsonView::Obj(
        map![
            "id"@ => jstr(m.api_id@),
            "display_name"@ => jstr(m.display_name@),
            "provider"@ => jstr(provider_name(m.provider)),
            "context_window"@ => JsonView::Number(decimal(m.context_window as nat)),
            "supports_vision"@ => JsonView::Bool(m.supports_vision),
            "open_weight"@ => JsonView::Bool(m.open_weight),
            "cost_per_1m_input_cents"@ => json_view(m.cost_per_1m_input),
            "cost_per_1m_output_cents"@ => json_view(m.cost_per_1m_output),
        ],
    )
}

/// The listing of models: one entry for each, in their order.
pub fn model_listing(models: &Vec<ModelConfig>) -> (v: serde_json::Value)
    ensures
        json_view(v) == JsonView::Obj(
            map![
                "object"@ => jstr("list"@),
                "data"@ => JsonView::Arr(models@.map_values(|m: ModelConfig| model_entry(m))),
            ],
        ),
{
    let ghost all = models@.map_values(|m: ModelConfig| model_entry(m));
    let mut out: Vec<serde_json::Value> = Vec::new();
    let mut i: usize = 0;
    while i < models.len()
        invariant
            all == models@.map_values(|m: ModelConfig| model_entry(m)),
            i <= models@.len(),
            json_views(out@) == all.take(i as int),
        decreases models@.len() - i,
    {
        let ghost before = json_views(out@);
        let m = &models[i];
        let mut o = no_fields();
        set_field(&mut o, "id", json_str(m.api_id.as_str()));
        set_field(&mut o, "display_name", json_str(m.display_name.as_str()));
        set_field(&mut o, "provider", json_str(m.provider.name()));
        set_field(&mut o, "context_window", json_number(m.context_window));
        set_field(&mut o, "supports_vision", json_bool(m.supports_vision));
        set_field(&mut o, "open_weight", json_bool(m.open_weight));
        set_field(&mut o, "cost_per_1m_input_cents", json_clone(&m.cost_per_1m_input));
        set_field(&mut o, "cost_per_1m_output_cents", json_clone(&m.cost_per_1m_output));
        out.push(json_object(o));
        assert(json_views(out@) == before.push(all[i as int]));
        i = i + 1;
    }
    assert(all.take(all.len() as int) == all);
    object_with("object", "list", "data", json_array(out))
}

// What holds of messages.

/// A message shows an image exactly if one of its parts is an image, by its URL or inline. Plain text
/// and text parts show none.
pub proof fn law_image_parts_are_seen(content: ContentView)
    ensures
        content is Text ==> !content.shows_image(),
        content matches ContentView::Parts(parts) ==> {
            &&& forall|i: int|
                0 <= i < parts.len() && (#[trigger] parts[i]).kind is ImageUrl
                    ==> content.shows_image()
            &&& forall|i: int|
                0 <= i < parts.len() && (#[trigger] parts[i]).kind is ImageBase64
                    ==> content.shows_image()
            &&& (forall|i: int| 0 <= i < parts.len() ==> (#[trigger] parts[i]).kind is Text)
                ==> !content.shows_image()
        },
{
    if let ContentView::Parts(parts) = content {
        assert forall|i: int|
            0 <= i < parts.len() && !((#[trigger] parts[i]).kind is Text) implies
            content.shows_image() by {
            assert(is_image(parts[i]));
        }
        if forall|i: int| 0 <= i < parts.len() ==> (#[trigger] parts[i]).kind is Text {
            assert forall|i: int| 0 <= i < parts.len() implies !is_image(#[trigger] parts[i]) by {}
        }
    }
}

/// The text parts of a list of parts are those of its first half and then those of its second; a text
/// part is one of them, and an image is none. So each text part is there once, in its order.
pub proof fn law_text_parts_are_all_texts_in_order(
    first: Seq<PartView>,
    second: Seq<PartView>,
    part: PartView,
)
    ensures
        text_parts(first + second) == text_parts(first) + text_parts(second),
        text_parts(Seq::<PartView>::empty()).len() == 0,
        part.kind is Text ==> text_parts(seq![part]) == seq![part.kind->Text_text],
        part.kind is ImageUrl || part.kind is ImageBase64 ==> text_parts(seq![part]).len() == 0,
    decreases second.len(),
{
    reveal_with_fuel(text_parts, 2);
    if second.len() == 0 {
        assert(first + second == first);
        assert(text_parts(first) + text_parts(second) == text_parts(first));
    } else {
        law_text_parts_are_all_texts_in_order(first, second.drop_last(), part);
        assert((first + second).drop_last() == first + second.drop_last());
        assert((first + second).last() == second.last());
        assert(text_parts(first + second) == text_parts(first) + text_parts(second));
    }
    assert(seq![part].drop_last() == Seq::<PartView>::empty());
}

/// The text of a message: plain text as it is; of parts, the text parts with one space between them.
pub proof fn law_text_of_a_message(parts: Seq<PartView>, part: PartView, text: Seq<char>)
    ensures
        ContentView::Text(text).text() == text,
        ContentView::Parts(Seq::<PartView>::empty()).text().len() == 0,
        !(part.kind is Text) ==> ContentView::Parts(parts.push(part)).text()
            == ContentView::Parts(parts).text(),
        part.kind is Text ==> ContentView::Parts(parts.push(part)).text() == if text_parts(
            parts,
        ).len() == 0 {
            part.kind->Text_text
        } else {
            ContentView::Parts(parts).text() + seq![' '] + part.kind->Text_text
        },
{
    reveal_strlit(" ");
    assert(" "@ == seq![' ']);
    assert(parts.push(part).drop_last() == parts);
    let before = text_parts(parts);
    if part.kind is Text {
        let after = before.push(part.kind->Text_text);
        assert(text_parts(parts.push(part)) == after);
        assert(after.drop_last() == before);
        if before.len() == 0 {
            assert(joined(after, " "@) == after[0]);
        } else {
            assert(joined(after, " "@) == joined(before, " "@) + " "@ + part.kind->Text_text);
        }
    }
}

/// The names of the fields that parts are sent with are different.
proof fn lemma_field_names()
    ensures
        "type"@ != "text"@,
        "type"@ != "source"@,
        "type"@ != "url"@,
        "type"@ != "image_url"@,
        "type"@ != "media_type"@,
        "type"@ != "data"@,
        "media_type"@ != "data"@,
        "url"@ != "detail"@,
        "mimeType"@ != "fileUri"@,
        "mimeType"@ != "data"@,
        "role"@ != "content"@,
        "role"@ != "parts"@,
        "text"@ != "fileData"@,
        "text"@ != "inlineData"@,
        "fileData"@ != "inlineData"@,
{
    reveal_strlit("type");
    reveal_strlit("text");
    reveal_strlit("source");
    reveal_strlit("url");
    reveal_strlit("image_url");
    reveal_strlit("media_type");
    reveal_strlit("data");
    reveal_strlit("detail");
    reveal_strlit("mimeType");
    reveal_strlit("fileUri");
    reveal_strlit("fileData");
    reveal_strlit("inlineData");
    reveal_strlit("role");
    reveal_strlit("content");
    reveal_strlit("parts");
    assert("type"@[1] == 'y' && "text"@[1] == 'e');
    assert("type"@[0] == 't' && "data"@[0] == 'd');
    assert("type"@.len() == 4 && "source"@.len() == 6 && "url"@.len() == 3);
    assert("image_url"@.len() == 9 && "media_type"@.len() == 10 && "detail"@.len() == 6);
    assert("mimeType"@.len() == 8 && "fileUri"@.len() == 7 && "data"@.len() == 4);
    assert("role"@.len() == 4 && "content"@.len() == 7 && "parts"@.len() == 5);
    assert("text"@.len() == 4 && "fileData"@.len() == 8 && "inlineData"@.len() == 10);
}

/// A field of an object, by its name.
pub open spec fn at(v: JsonView, name: Seq<char>) -> JsonView
    recommends
        v is Obj,
{
    v->Obj_0[name]
}

/// The names of the fields of an object.
pub open spec fn names(v: JsonView) -> Set<Seq<char>>
    recommends
        v is Obj,
{
    v->Obj_0.dom()
}

/// Anthropic gets every text as text, every image URL as such, and every inline image with its type
/// and its data.
pub proof fn law_anthropic_gets_every_part(
    text: Seq<char>,
    url: Seq<char>,
    detail: Option<Seq<char>>,
    media_type: Seq<char>,
    data: Seq<char>,
)
    ensures
        ({
            let v = anthropic_part(KindView::Text { text });
            &&& v is Obj
            &&& names(v) == set!["type"@, "text"@]
            &&& at(v, "type"@) == JsonView::Str("text"@)
            &&& at(v, "text"@) == JsonView::Str(text)
        }),
        ({
            let v = anthropic_part(KindView::ImageUrl { url, detail });
            &&& v is Obj
            &&& names(v) == set!["type"@, "source"@]
            &&& at(v, "type"@) == JsonView::Str("image"@)
            &&& at(v, "source"@) is Obj
            &&& names(at(v, "source"@)) == set!["type"@, "url"@]
            &&& at(at(v, "source"@), "type"@) == JsonView::Str("url"@)
            &&& at(at(v, "source"@), "url"@) == JsonView::Str(url)
        }),
        ({
            let v = anthropic_part(KindView::ImageBase64 { media_type, data });
            &&& v is Obj
            &&& names(v) == set!["type"@, "source"@]
            &&& at(v, "type"@) == JsonView::Str("image"@)
            &&& at(v, "source"@) is Obj
            &&& names(at(v, "source"@)) == set!["type"@, "media_type"@, "data"@]
            &&& at(at(v, "source"@), "type"@) == JsonView::Str("base64"@)
            &&& at(at(v, "source"@), "media_type"@) == JsonView::Str(media_type)
            &&& at(at(v, "source"@), "data"@) == JsonView::Str(data)
        }),
{
    lemma_field_names();
    assert(names(anthropic_part(KindView::Text { text })) =~= set!["type"@, "text"@]);
    let u = anthropic_part(KindView::ImageUrl { url, detail });
    assert(names(u) =~= set!["type"@, "source"@]);
    assert(names(at(u, "source"@)) =~= set!["type"@, "url"@]);
    let b = anthropic_part(KindView::ImageBase64 { media_type, data });
    assert(names(b) =~= set!["type"@, "source"@]);
    assert(names(at(b, "source"@)) =~= set!["type"@, "media_type"@, "data"@]);
}

/// An OpenAI-compatible provider gets every text as text, every image URL with the detail that the
/// sender has asked for, or `auto`, and every inline image as a data URI of its type and data.
pub proof fn law_openai_gets_every_part(
    text: Seq<char>,
    url: Seq<char>,
    detail: Option<Seq<char>>,
    media_type: Seq<char>,
    data: Seq<char>,
)
    ensures
        ({
            let v = openai_part(KindView::Text { text });
            &&& v is Obj
            &&& names(v) == set!["type"@, "text"@]
            &&& at(v, "type"@) == JsonView::Str("text"@)
            &&& at(v, "text"@) == JsonView::Str(text)
        }),
        ({
            let v = openai_part(KindView::ImageUrl { url, detail });
            &&& v is Obj
            &&& names(v) == set!["type"@, "image_url"@]
            &&& at(v, "type"@) == JsonView::Str("image_url"@)
            &&& at(v, "image_url"@) is Obj
            &&& names(at(v, "image_url"@)) == set!["url"@, "detail"@]
            &&& at(at(v, "image_url"@), "url"@) == JsonView::Str(url)
            &&& detail matches Some(d) ==> at(at(v, "image_url"@), "detail"@) == JsonView::Str(d)
            &&& detail is None ==> at(at(v, "image_url"@), "detail"@) == JsonView::Str("auto"@)
        }),
        ({
            let v = openai_part(KindView::ImageBase64 { media_type, data });
            &&& v is Obj
            &&& names(v) == set!["type"@, "image_url"@]
            &&& at(v, "type"@) == JsonView::Str("image_url"@)
            &&& at(v, "image_url"@) is Obj
            &&& names(at(v, "image_url"@)) == set!["url"@]
            &&& at(at(v, "image_url"@), "url"@) == JsonView::Str(
                "data:"@ + media_type + ";base64,"@ + data,
            )
        }),
{
    lemma_field_names();
    assert(names(openai_part(KindView::Text { text })) =~= set!["type"@, "text"@]);
    let u = openai_part(KindView::ImageUrl { url, detail });
    assert(names(u) =~= set!["type"@, "image_url"@]);
    assert(names(at(u, "image_url"@)) =~= set!["url"@, "detail"@]);
    let b = openai_part(KindView::ImageBase64 { media_type, data });
    assert(names(b) =~= set!["type"@, "image_url"@]);
    assert(names(at(b, "image_url"@)) =~= set!["url"@]);
}

/// Gemini gets every text as text, every image URL as a file, and every inline image with its type and
/// its data.
pub proof fn law_gemini_gets_every_part(
    text: Seq<char>,
    url: Seq<char>,
    detail: Option<Seq<char>>,
    media_type: Seq<char>,
    data: Seq<char>,
)
    ensures
        ({
            let v = gemini_part(KindView::Text { text });
            &&& v is Obj
            &&& names(v) == set!["text"@]
            &&& at(v, "text"@) == JsonView::Str(text)
        }),
        ({
            let v = gemini_part(KindView::ImageUrl { url, detail });
            &&& v is Obj
            &&& names(v) == set!["fileData"@]
            &&& at(v, "fileData"@) is Obj
            &&& names(at(v, "fileData"@)) == set!["mimeType"@, "fileUri"@]
            &&& at(at(v, "fileData"@), "mimeType"@) == JsonView::Str("image/jpeg"@)
            &&& at(at(v, "fileData"@), "fileUri"@) == JsonView::Str(url)
        }),
        ({
            let v = gemini_part(KindView::ImageBase64 { media_type, data });
            &&& v is Obj
            &&& names(v) == set!["inlineData"@]
            &&& at(v, "inlineData"@) is Obj
            &&& names(at(v, "inlineData"@)) == set!["mimeType"@, "data"@]
            &&& at(at(v, "inlineData"@), "mimeType"@) == JsonView::Str(media_type)
            &&& at(at(v, "inlineData"@), "data"@) == JsonView::Str(data)
        }),
{
    lemma_field_names();
    assert(names(gemini_part(KindView::Text { text })) =~= set!["text"@]);
    let u = gemini_part(KindView::ImageUrl { url, detail });
    assert(names(u) =~= set!["fileData"@]);
    assert(names(at(u, "fileData"@)) =~= set!["mimeType"@, "fileUri"@]);
    let b = gemini_part(KindView::ImageBase64 { media_type, data });
    assert(names(b) =~= set!["inlineData"@]);
    assert(names(at(b, "inlineData"@)) =~= set!["mimeType"@, "data"@]);
}

/// A message is sent in every format with its sender and all of its content: plain text whole, and of
/// parts each in its place. Gemini knows the assistant as `model` and everyone else as `user`.
pub proof fn law_messages_are_sent_whole(
    role: Seq<char>,
    text: Seq<char>,
    parts: Seq<PartView>,
    i: int,
)
    ensures
        ({
            let plain = anthropic_message(role, ContentView::Text(text));
            let full = anthropic_message(role, ContentView::Parts(parts));
            &&& plain is Obj && full is Obj
            &&& at(plain, "role"@) == JsonView::Str(role)
            &&& at(plain, "content"@) == JsonView::Str(text)
            &&& at(full, "role"@) == JsonView::Str(role)
            &&& at(full, "content"@) is Arr
            &&& at(full, "content"@)->Arr_0.len() == parts.len()
            &&& 0 <= i < parts.len() ==> at(full, "content"@)->Arr_0[i] == anthropic_part(
                parts[i].kind,
            )
        }),
        ({
            let plain = openai_message(role, ContentView::Text(text));
            let full = openai_message(role, ContentView::Parts(parts));
            &&& plain is Obj && full is Obj
            &&& at(plain, "role"@) == JsonView::Str(role)
            &&& at(plain, "content"@) == JsonView::Str(text)
            &&& at(full, "role"@) == JsonView::Str(role)
            &&& at(full, "content"@) is Arr
            &&& at(full, "content"@)->Arr_0.len() == parts.len()
            &&& 0 <= i < parts.len() ==> at(full, "content"@)->Arr_0[i] == openai_part(
                parts[i].kind,
            )
        }),
        ({
            let plain = gemini_message(role, ContentView::Text(text));
            let full = gemini_message(role, ContentView::Parts(parts));
            let sender = JsonView::Str(
                if role == "assistant"@ {
                    "model"@
                } else {
                    "user"@
                },
            );
            &&& plain is Obj && full is Obj
            &&& at(plain, "role"@) == sender
            &&& at(plain, "parts"@) == JsonView::Arr(
                seq![gemini_part(KindView::Text { text })],
            )
            &&& at(full, "role"@) == sender
            &&& at(full, "parts"@) is Arr
            &&& at(full, "parts"@)->Arr_0.len() == parts.len()
            &&& 0 <= i < parts.len() ==> at(full, "parts"@)->Arr_0[i] == gemini_part(
                parts[i].kind,
            )
        }),
{
    lemma_field_names();
}

// What holds of the choice of a model that can see.

/// The router's choice by the caller's priority is kept if it can see; else its choice by quality, if
/// that can; an error of the router is passed on.
pub proof fn law_vision_choice_keeps_the_routers_choice(
    preferred: Result<RoutingDecision, String>,
    by_quality: Result<RoutingDecision, String>,
    models: Seq<ModelConfig>,
    input_tokens: u32,
    r: Result<RoutingDecision, String>,
)
    requires
        vision_choice(preferred, by_quality, models, input_tokens, r),
    ensures
        preferred is Err ==> r == preferred,
        preferred is Ok && preferred->Ok_0.model.supports_vision ==> r == preferred,
        preferred is Ok && !preferred->Ok_0.model.supports_vision && by_quality is Err ==> r
            == by_quality,
        preferred is Ok && !preferred->Ok_0.model.supports_vision && by_quality is Ok
            && by_quality->Ok_0.model.supports_vision ==> r == by_quality,
{
}

/// Where neither choice of the router can see, the best of the listed models is chosen whose context
/// is greater than the request: none that takes the request scores higher. It fails only if none takes
/// it.
pub proof fn law_last_resort_is_the_best_that_fits(
    preferred: RoutingDecision,
    by_quality: RoutingDecision,
    models: Seq<ModelConfig>,
    input_tokens: u32,
    r: Result<RoutingDecision, String>,
    j: int,
)
    requires
        vision_choice(Ok(preferred), Ok(by_quality), models, input_tokens, r),
        !preferred.model.supports_vision,
        !by_quality.model.supports_vision,
        0 <= j < models.len(),
    ensures
        input_tokens < models[j].context_window ==> r is Ok,
        r matches Ok(d) ==> {
            &&& models.contains(d.model)
            &&& input_tokens < d.model.context_window
            &&& input_tokens < models[j].context_window ==> models[j].quality_score
                <= d.model.quality_score
            &&& d.score == d.model.quality_score
        },
{
    assert(takes(models[j], input_tokens) == (input_tokens < models[j].context_window));
    if let Ok(d) = r {
        let k = choose|k: int|
            {
                &&& #[trigger] is_best(models, k, input_tokens)
                &&& d.model == models[k]
                &&& d.score == models[k].quality_score
                &&& d.reason@ == models[k].display_name@
                    + " chosen as best available vision-capable model"@
            };
        assert(models[k] == d.model);
    }
}

/// A listing names a model by its id, and says what it costs, takes and can do.
pub proof fn law_listings_describe_the_model(m: ModelConfig)
    ensures
        model_entry(m) is Obj,
        at(model_entry(m), "id"@) == JsonView::Str(m.api_id@),
        at(model_entry(m), "display_name"@) == JsonView::Str(m.display_name@),
        at(model_entry(m), "provider"@) == JsonView::Str(provider_name(m.provider)),
        at(model_entry(m), "context_window"@) == JsonView::Number(
            decimal(m.context_window as nat),
        ),
        at(model_entry(m), "supports_vision"@) == JsonView::Bool(m.supports_vision),
        at(model_entry(m), "open_weight"@) == JsonView::Bool(m.open_weight),
        at(model_entry(m), "cost_per_1m_input_cents"@) == json_view(m.cost_per_1m_input),
        at(model_entry(m), "cost_per_1m_output_cents"@) == json_view(m.cost_per_1m_output),
{
    reveal_strlit("id");
    reveal_strlit("display_name");
    reveal_strlit("provider");
    reveal_strlit("context_window");
    reveal_strlit("supports_vision");
    reveal_strlit("open_weight");
    reveal_strlit("cost_per_1m_input_cents");
    reveal_strlit("cost_per_1m_output_cents");
    assert("id"@.len() == 2 && "display_name"@.len() == 12 && "provider"@.len() == 8);
    assert("context_window"@.len() == 14 && "supports_vision"@.len() == 15);
    assert("open_weight"@.len() == 11 && "cost_per_1m_input_cents"@.len() == 23);
    assert("cost_per_1m_output_cents"@.len() == 24);
}

/// A message's content is seen with all that it holds: the text, or each part in its place with its
/// kind and every field of it.
pub proof fn law_contents_are_seen_whole(content: MessageContent, i: int)
    ensures
        content matches MessageContent::Text(s) ==> content@ == ContentView::Text(s@),
        content matches MessageContent::Parts(parts) ==> {
            &&& content@ is Parts
            &&& content@->Parts_0.len() == parts@.len()
            &&& 0 <= i < parts@.len() ==> {
                let seen = content@->Parts_0[i];
                &&& seen.part_type == parts@[i].part_type@
                &&& match parts@[i].kind {
                    PartKind::Text { text } => seen.kind == KindView::Text { text: text@ },
                    PartKind::ImageUrl { image_url } => {
                        &&& seen.kind is ImageUrl
                        &&& seen.kind->url == image_url.url@
                        &&& seen.kind->detail is Some <==> image_url.detail is Some
                        &&& image_url.detail matches Some(d) ==> seen.kind->detail->0 == d@
                    },
                    PartKind::ImageBase64 { image_data } => seen.kind
                        == KindView::ImageBase64 {
                        media_type: image_data.media_type@,
                        data: image_data.data@,
                    },
                }
            }
        },
{
}

/// Among listed models that score alike the last is chosen, and what is said of the choice names the
/// model.
pub proof fn law_last_of_equals_is_chosen(
    preferred: RoutingDecision,
    by_quality: RoutingDecision,
    models: Seq<ModelConfig>,
    input_tokens: u32,
    d: RoutingDecision,
)
    requires
        vision_choice(Ok(preferred), Ok(by_quality), models, input_tokens, Ok(d)),
        !preferred.model.supports_vision,
        !by_quality.model.supports_vision,
    ensures
        exists|k: int|
            {
                &&& 0 <= k < models.len()
                &&& d.model == #[trigger] models[k]
                &&& forall|j: int|
                    k < j < models.len() && input_tokens < (#[trigger] models[j]).context_window
                        ==> models[j].quality_score < models[k].quality_score
            },
        d.reason@ == d.model.display_name@ + " chosen as best available vision-capable model"@,
{
    let k = choose|k: int|
        {
            &&& #[trigger] is_best(models, k, input_tokens)
            &&& d.model == models[k]
            &&& d.score == models[k].quality_score
            &&& d.reason@ == models[k].display_name@
                + " chosen as best available vision-capable model"@
        };
    assert(d.model == models[k]);
    assert forall|j: int|
        k < j < models.len() && input_tokens < (#[trigger] models[j]).context_window implies
        models[j].quality_score < models[k].quality_score by {
        assert(takes(models[j], input_tokens));
    }
}

/// Where neither choice of the router can see and no listed model takes the request, the client is told
/// that there is none.
pub proof fn law_no_model_that_sees_is_told(
    preferred: RoutingDecision,
    by_quality: RoutingDecision,
    models: Seq<ModelConfig>,
    input_tokens: u32,
    e: String,
)
    requires
        vision_choice(Ok(preferred), Ok(by_quality), models, input_tokens, Err(e)),
        !preferred.model.supports_vision,
        !by_quality.model.supports_vision,
    ensures
        e@ == "No vision-capable model available in registry"@,
        forall|j: int|
            0 <= j < models.len() ==> (#[trigger] models[j]).context_window <= input_tokens,
{
    assert forall|j: int| 0 <= j < models.len() implies (#[trigger] models[j]).context_window
        <= input_tokens by {
        assert(!takes(models[j], input_tokens));
    }
}

} // verus!
