//! The providers: their names, endpoints, wire formats and the headers that carry a client's key.

use vstd::prelude::*;

verus! {

/// A provider of language models.
#[derive(Debug, Clone, Copy, PartialEq, Eq, Hash, Structural)]
pub enum Provider {
    Anthropic,
    OpenAI,
    Gemini,
    DeepSeek,
    Mistral,
    /// Grok.
    XAI,
    /// Alibaba DashScope, in its OpenAI-compatible mode.
    Qwen,
    /// Kimi.
    Moonshot,
    /// GLM.
    Zhipu,
    /// The Llama API.
    Meta,
    OpenRouter,
}

/// The wire format that a provider speaks.
#[derive(Debug, Clone, Copy, PartialEq, Eq, Structural)]
pub enum WireFormat {
    /// `{model, messages, ..}` and `{choices, usage}`, with a bearer token.
    OpenAICompatible,
    /// Anthropic's `/v1/messages`.
    Anthropic,
    /// Gemini's `generateContent`.
    Gemini,
}

/// The name under which a provider is reported.
pub open spec fn provider_name(p: Provider) -> Seq<char> {
    match p {
        Provider::Anthropic => "anthropic"@,
        Provider::OpenAI => "openai"@,
        Provider::Gemini => "gemini"@,
        Provider::DeepSeek => "deepseek"@,
        Provider::Mistral => "mistral"@,
        Provider::XAI => "xai"@,
        Provider::Qwen => "qwen"@,
        Provider::Moonshot => "moonshot"@,
        Provider::Zhipu => "zhipu"@,
        Provider::Meta => "meta"@,
        Provider::OpenRouter => "openrouter"@,
    }
}

/// The vendor slug that OpenRouter puts before a model's id.
pub open spec fn vendor_slug(p: Provider) -> Seq<char> {
    match p {
        Provider::Anthropic => "anthropic"@,
        Provider::OpenAI => "openai"@,
        Provider::Gemini => "google"@,
        Provider::DeepSeek => "deepseek"@,
        Provider::Mistral => "mistralai"@,
        Provider::XAI => "x-ai"@,
        Provider::Qwen => "qwen"@,
        Provider::Moonshot => "moonshotai"@,
        Provider::Zhipu => "z-ai"@,
        Provider::Meta => "meta-llama"@,
        Provider::OpenRouter => ""@,
    }
}

/// The endpoint of each provider.
pub open spec fn base_url(p: Provider) -> Seq<char> {
    match p {
        Provider::OpenAI => "https://api.openai.com/v1/chat/completions"@,
        Provider::Anthropic => "https://api.anthropic.com/v1/messages"@,
        Provider::DeepSeek => "https://api.deepseek.com/v1/chat/completions"@,
        Provider::Gemini => "https://generativelanguage.googleapis.com/v1beta/models"@,
        Provider::Mistral => "https://api.mistral.ai/v1/chat/completions"@,
        Provider::XAI => "https://api.x.ai/v1/chat/completions"@,
        Provider::Qwen => "https://dashscope-intl.aliyuncs.com/compatible-mode/v1/chat/completions"@,
        Provider::Moonshot => "https://api.moonshot.ai/v1/chat/completions"@,
        Provider::Zhipu => "https://open.bigmodel.cn/api/paas/v4/chat/completions"@,
        Provider::Meta => "https://api.llama.com/v1/chat/completions"@,
        Provider::OpenRouter => "https://openrouter.ai/api/v1/chat/completions"@,
    }
}

/// The wire format of each provider.
pub open spec fn format_of(p: Provider) -> WireFormat {
    match p {
        Provider::Anthropic => WireFormat::Anthropic,
        Provider::Gemini => WireFormat::Gemini,
        _ => WireFormat::OpenAICompatible,
    }
}

/// A number for each provider.
pub open spec fn provider_code(p: Provider) -> u64 {
    match p {
        Provider::Anthropic => 0,
        Provider::OpenAI => 1,
        Provider::Gemini => 2,
        Provider::DeepSeek => 3,
        Provider::Mistral => 4,
        Provider::XAI => 5,
        Provider::Qwen => 6,
        Provider::Moonshot => 7,
        Provider::Zhipu => 8,
        Provider::Meta => 9,
        Provider::OpenRouter => 10,
    }
}

impl Provider {
    /// The name under which the provider is reported, in lower case.
    pub fn name(&self) -> (s: &'static str)
        ensures
            s@ == provider_name(*self),
    {
        match self {
            Provider::Anthropic => "anthropic",
            Provider::OpenAI => "openai",
            Provider::Gemini => "gemini",
            Provider::DeepSeek => "deepseek",
            Provider::Mistral => "mistral",
            Provider::XAI => "xai",
            Provider::Qwen => "qwen",
            Provider::Moonshot => "moonshot",
            Provider::Zhipu => "zhipu",
            Provider::Meta => "meta",
            Provider::OpenRouter => "openrouter",
        }
    }

    /// The prefix OpenRouter expects in front of the bare model id, as in
    /// `openai/gpt-4o`. Used only when a request is re-routed through OpenRouter
    /// because the client supplied an OpenRouter key but not a direct one.
    pub fn openrouter_prefix(&self) -> (s: &'static str)
        ensures
            s@ == vendor_slug(*self),
    {
        match self {
            Provider::Anthropic => "anthropic",
            Provider::OpenAI => "openai",
            Provider::Gemini => "google",
            Provider::DeepSeek => "deepseek",
            Provider::Mistral => "mistralai",
            Provider::XAI => "x-ai",
            Provider::Qwen => "qwen",
            Provider::Moonshot => "moonshotai",
            Provider::Zhipu => "z-ai",
            Provider::Meta => "meta-llama",
            Provider::OpenRouter => "",
        }
    }

    /// The wire format that the provider speaks.
    pub fn wire_format(&self) -> (f: WireFormat)
        ensures
            f == format_of(*self),
    {
        match self {
            Provider::Anthropic => WireFormat::Anthropic,
            Provider::Gemini => WireFormat::Gemini,
            _ => WireFormat::OpenAICompatible,
        }
    }

    /// A number for each provider, a different one for each.
    pub fn code(&self) -> (n: u64)
        ensures
            n == provider_code(*self),
    {
        match self {
            Provider::Anthropic => 0,
            Provider::OpenAI => 1,
            Provider::Gemini => 2,
            Provider::DeepSeek => 3,
            Provider::Mistral => 4,
            Provider::XAI => 5,
            Provider::Qwen => 6,
            Provider::Moonshot => 7,
            Provider::Zhipu => 8,
            Provider::Meta => 9,
            Provider::OpenRouter => 10,
        }
    }
}

/// Base completion URL for every provider that is talked to directly.
pub fn provider_base_url(provider: Provider) -> (s: &'static str)
    ensures
        s@ == base_url(provider),
{
    match provider {
        Provider::OpenAI => "https://api.openai.com/v1/chat/completions",
        Provider::Anthropic => "https://api.anthropic.com/v1/messages",
        Provider::DeepSeek => "https://api.deepseek.com/v1/chat/completions",
        Provider::Gemini => "https://generativelanguage.googleapis.com/v1beta/models",
        Provider::Mistral => "https://api.mistral.ai/v1/chat/completions",
        Provider::XAI => "https://api.x.ai/v1/chat/completions",
        Provider::Qwen => "https://dashscope-intl.aliyuncs.com/compatible-mode/v1/chat/completions",
        Provider::Moonshot => "https://api.moonshot.ai/v1/chat/completions",
        Provider::Zhipu => "https://open.bigmodel.cn/api/paas/v4/chat/completions",
        Provider::Meta => "https://api.llama.com/v1/chat/completions",
        Provider::OpenRouter => "https://openrouter.ai/api/v1/chat/completions",
    }
}

/// Each provider has an endpoint, a name and a number of its own, and no two share one.
pub proof fn law_providers_are_told_apart(p: Provider, q: Provider)
    ensures
        provider_code(p) == provider_code(q) ==> p == q,
{
}

/// The name, the vendor slug at OpenRouter and the endpoint of each provider.
pub proof fn law_each_provider_has_its_own_place(p: Provider)
    ensures
        p == Provider::Anthropic ==> provider_name(p) == "anthropic"@ && vendor_slug(p)
            == "anthropic"@ && base_url(p) == "https://api.anthropic.com/v1/messages"@,
        p == Provider::OpenAI ==> provider_name(p) == "openai"@ && vendor_slug(p) == "openai"@
            && base_url(p) == "https://api.openai.com/v1/chat/completions"@,
        p == Provider::Gemini ==> provider_name(p) == "gemini"@ && vendor_slug(p) == "google"@
            && base_url(p) == "https://generativelanguage.googleapis.com/v1beta/models"@,
        p == Provider::DeepSeek ==> provider_name(p) == "deepseek"@ && vendor_slug(p)
            == "deepseek"@ && base_url(p) == "https://api.deepseek.com/v1/chat/completions"@,
        p == Provider::Mistral ==> provider_name(p) == "mistral"@ && vendor_slug(p)
            == "mistralai"@ && base_url(p) == "https://api.mistral.ai/v1/chat/completions"@,
        p == Provider::XAI ==> provider_name(p) == "xai"@ && vendor_slug(p) == "x-ai"@
            && base_url(p) == "https://api.x.ai/v1/chat/completions"@,
        p == Provider::Qwen ==> provider_name(p) == "qwen"@ && vendor_slug(p) == "qwen"@
            && base_url(p)
            == "https://dashscope-intl.aliyuncs.com/compatible-mode/v1/chat/completions"@,
        p == Provider::Moonshot ==> provider_name(p) == "moonshot"@ && vendor_slug(p)
            == "moonshotai"@ && base_url(p) == "https://api.moonshot.ai/v1/chat/completions"@,
        p == Provider::Zhipu ==> provider_name(p) == "zhipu"@ && vendor_slug(p) == "z-ai"@
            && base_url(p) == "https://open.bigmodel.cn/api/paas/v4/chat/completions"@,
        p == Provider::Meta ==> provider_name(p) == "meta"@ && vendor_slug(p) == "meta-llama"@
            && base_url(p) == "https://api.llama.com/v1/chat/completions"@,
        p == Provider::OpenRouter ==> provider_name(p) == "openrouter"@ && vendor_slug(p) == ""@
            && base_url(p) == "https://openrouter.ai/api/v1/chat/completions"@,
{
}

/// Anthropic and Gemini have a wire format of their own, and all others share one.
pub proof fn law_two_providers_have_their_own_format(p: Provider)
    ensures
        format_of(p) is Anthropic <==> p == Provider::Anthropic,
        format_of(p) is Gemini <==> p == Provider::Gemini,
{
}

} // verus!
