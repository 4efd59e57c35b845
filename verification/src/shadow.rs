//! Comparisons: a second call to another model beside the one that answers a client.
//!
//! The client never sees the second answer, and nothing that happens to the second call touches the
//! first. What comes of it is recorded next to the first.

use crate::calls::ConnectorResult;
use crate::connectors::{ChatCompletionRequest, ConnectorError, RequestView, error_text};
use crate::exchange::{
    answer_len, baseline, baseline_cost, client_key, client_key_of, response_text,
};
use crate::gateway::{ByokRoute, ClientProviderKeys, byok_route, resolve_byok_route};
use crate::guardrails::{
    SpendGuard, SpendWindow, capped_sum, current, under_ceiling, window_of,
};
use crate::provider::{Provider, provider_name};
use crate::text::same_text;
use crate::text::{text2, text_view};
use vstd::prelude::*;
use vstd::string::*;
use vstd::utf8::encode_utf8;

verus! {

/// Whether comparisons are allowed, by the setting of the environment: they are, unless it says
/// `false` or `0`.
pub fn shadow_mode_enabled(setting: Option<&str>) -> (r: bool)
    ensures
        r <==> match setting {
            Some(v) => v@ != "false"@ && v@ != "0"@,
            None => true,
        },
{
    match setting {
        Some(v) => !same_text(v, "false") && !same_text(v, "0"),
        None => true,
    }
}

/// The call that answered the client.
#[derive(Debug)]
pub struct ShadowBase {
    pub request_id: String,
    pub client_id: Option<String>,
    pub primary_model: String,
    pub primary_provider: Provider,
    /// In micro-cents.
    pub primary_cost: u64,
    pub primary_latency_ms: u64,
    /// The length of the answer's text in bytes.
    pub primary_output_chars: usize,
}

/// What is recorded of a comparison.
#[derive(Debug)]
pub struct ShadowComparison {
    pub request_id: String,
    pub client_id: Option<String>,
    pub primary_model: String,
    pub primary_provider: String,
    /// In micro-cents.
    pub primary_cost: u64,
    pub primary_latency_ms: u64,
    pub primary_output_chars: usize,
    pub shadow_model: String,
    pub shadow_provider: String,
    /// In micro-cents.
    pub shadow_cost: Option<u64>,
    pub shadow_latency_ms: Option<u64>,
    pub shadow_output_chars: Option<usize>,
    pub shadow_error: Option<String>,
}

/// What a second call has come to: its cost, latency and output, or why there are none.
pub enum ShadowOutcome {
    Done { cost: u64, latency_ms: u64, output_chars: usize },
    Failed(Seq<char>),
}

/// A comparison of a call with a second one to a model of a provider.
pub open spec fn compares(
    c: ShadowComparison,
    base: ShadowBase,
    model: Seq<char>,
    provider: Seq<char>,
    outcome: ShadowOutcome,
) -> bool {
    &&& c.request_id@ == base.request_id@
    &&& text_view(c.client_id) == text_view(base.client_id)
    &&& c.primary_model@ == base.primary_model@
    &&& c.primary_provider@ == provider_name(base.primary_provider)
    &&& c.primary_cost == base.primary_cost
    &&& c.primary_latency_ms == base.primary_latency_ms
    &&& c.primary_output_chars == base.primary_output_chars
    &&& c.shadow_model@ == model
    &&& c.shadow_provider@ == provider
    &&& match outcome {
        ShadowOutcome::Done { cost, latency_ms, output_chars } => {
            &&& c.shadow_cost == Some(cost)
            &&& c.shadow_latency_ms == Some(latency_ms)
            &&& c.shadow_output_chars == Some(output_chars)
            &&& c.shadow_error is None
        },
        ShadowOutcome::Failed(e) => {
            &&& c.shadow_cost is None
            &&& c.shadow_latency_ms is None
            &&& c.shadow_output_chars is None
            &&& text_view(c.shadow_error) == Some(e)
        },
    }
}

fn compare_failed(base: ShadowBase, model: String, provider: &str, error: String) -> (c:
    ShadowComparison)
    ensures
        compares(c, base, model@, provider@, ShadowOutcome::Failed(error@)),
{
    ShadowComparison {
        request_id: base.request_id,
        client_id: base.client_id,
        primary_model: base.primary_model,
        primary_provider: base.primary_provider.name().to_string(),
        primary_cost: base.primary_cost,
        primary_latency_ms: base.primary_latency_ms,
        primary_output_chars: base.primary_output_chars,
        shadow_model: model,
        shadow_provider: provider.to_string(),
        shadow_cost: None,
        shadow_latency_ms: None,
        shadow_output_chars: None,
        shadow_error: Some(error),
    }
}

/// What is to be done about a comparison.
#[derive(Debug)]
pub enum ShadowPlan {
    /// No second call is made; this is recorded.
    Skip(ShadowComparison),
    /// The second call.
    Call { base: ShadowBase, model: String, route: ByokRoute, request: ChatCompletionRequest },
}

/// Plans the second call of a request to a model at time `now`, given the provider that the router
/// names for it. The second call is the same request for the other model, neither streamed nor
/// compared in turn. It is paid with the client's key; without one, for an unknown model, or for a
/// client that has reached its ceiling, it is not made.
pub fn plan_shadow(
    spend_guard: &SpendGuard,
    base: ShadowBase,
    model: String,
    provider: Result<Provider, String>,
    effective_request: &ChatCompletionRequest,
    keys: &ClientProviderKeys,
    now: u128,
) -> (plan: ShadowPlan)
    ensures
        match provider {
            Err(e) => plan matches ShadowPlan::Skip(c) && compares(
                c,
                base,
                model@,
                "unknown"@,
                ShadowOutcome::Failed("unknown shadow model: "@ + e@),
            ),
            Ok(p) => match byok_route(p, model@, *keys) {
                None => plan matches ShadowPlan::Skip(c) && compares(
                    c,
                    base,
                    model@,
                    provider_name(p),
                    ShadowOutcome::Failed("no BYOK key available for shadow provider"@),
                ),
                Some(r) => if under_ceiling(
                    spend_guard@,
                    client_key(text_view(base.client_id)),
                    now,
                    spend_guard.window(),
                    spend_guard.max(),
                ) {
                    plan matches ShadowPlan::Call { base: b, model: m, route, request } && b == base
                        && m@ == model@ && route@ == r && request@ == (RequestView {
                        model: r.model_id_to_send,
                        stream: Some(false),
                        shadow_model: None,
                        ..effective_request@
                    })
                } else {
                    plan matches ShadowPlan::Skip(c) && compares(
                        c,
                        base,
                        model@,
                        provider_name(r.provider_to_call),
                        ShadowOutcome::Failed("spend cap reached for this client"@),
                    )
                },
            },
        },
{
    let p = match provider {
        Err(e) => {
            let error = text2("unknown shadow model: ", e.as_str());
            return ShadowPlan::Skip(compare_failed(base, model, "unknown", error));
        },
        Ok(p) => p,
    };
    match resolve_byok_route(p, model.as_str(), keys) {
        Err(_) => ShadowPlan::Skip(
            compare_failed(
                base,
                model,
                p.name(),
                "no BYOK key available for shadow provider".to_string(),
            ),
        ),
        Ok(route) => {
            let client = client_key_of(&base.client_id);
            if !spend_guard.check_at(client.as_str(), now) {
                return ShadowPlan::Skip(
                    compare_failed(
                        base,
                        model,
                        route.provider_to_call.name(),
                        "spend cap reached for this client".to_string(),
                    ),
                );
            }
            let mut request = effective_request.copy();
            request.model = route.model_id_to_send.clone();
            request.stream = Some(false);
            request.shadow_model = None;
            ShadowPlan::Call { base, model, route, request }
        },
    }
}

/// A second call that has succeeded.
#[derive(Debug)]
pub struct ShadowAnswer {
    pub result: ConnectorResult,
    /// In micro-cents, if the model's price is known.
    pub cost: Option<u64>,
    pub latency_ms: u64,
}

/// What a second call cost, in micro-cents: where the model's price is not known, what a flagship
/// model would have cost.
pub open spec fn shadow_cost(a: ShadowAnswer) -> u64 {
    match a.cost {
        Some(c) => c,
        None => baseline(a.result.input_tokens, a.result.output_tokens) as u64,
    }
}

/// Settles a second call to a model through a provider. One that succeeded was billed like any
/// other, so it is counted against the client's ceiling. One that failed costs nothing.
pub fn finish_shadow_at(
    spend_guard: &mut SpendGuard,
    base: ShadowBase,
    model: String,
    provider_called: Provider,
    answer: Result<ShadowAnswer, ConnectorError>,
    now: u128,
) -> (c: ShadowComparison)
    ensures
        final(spend_guard).same_limits(old(spend_guard)),
        compares(
            c,
            base,
            model@,
            provider_name(provider_called),
            match answer {
                Ok(a) => ShadowOutcome::Done {
                    cost: shadow_cost(a),
                    latency_ms: a.latency_ms,
                    output_chars: encode_utf8(response_text(a.result.response@)).len() as usize,
                },
                Err(e) => ShadowOutcome::Failed(error_text(e@)),
            },
        ),
        final(spend_guard)@ == match answer {
            Ok(a) => {
                let client = client_key(text_view(base.client_id));
                let w = current(
                    window_of(old(spend_guard)@, client, now),
                    now,
                    old(spend_guard).window(),
                );
                old(spend_guard)@.insert(
                    client,
                    SpendWindow { spent: capped_sum(w.spent as nat, shadow_cost(a) as nat), ..w },
                )
            },
            Err(_) => old(spend_guard)@,
        },
{
    match answer {
        Ok(a) => {
            let client = client_key_of(&base.client_id);
            let cost: u64 = match a.cost {
                Some(c) => c,
                None => baseline_cost(a.result.input_tokens, a.result.output_tokens),
            };
            spend_guard.record_spend_at(client.as_str(), cost as u128, now);
            ShadowComparison {
                request_id: base.request_id,
                client_id: base.client_id,
                primary_model: base.primary_model,
                primary_provider: base.primary_provider.name().to_string(),
                primary_cost: base.primary_cost,
                primary_latency_ms: base.primary_latency_ms,
                primary_output_chars: base.primary_output_chars,
                shadow_model: model,
                shadow_provider: provider_called.name().to_string(),
                shadow_cost: Some(cost),
                shadow_latency_ms: Some(a.latency_ms),
                shadow_output_chars: Some(answer_len(&a.result.response)),
                shadow_error: None,
            }
        },
        Err(e) => {
            let error = e.message();
            compare_failed(base, model, provider_called.name(), error)
        },
    }
}

/// A comparison says of the first call what it was, under its own request and client, and names the
/// second model and provider.
pub proof fn law_comparisons_name_both_calls(
    c: ShadowComparison,
    base: ShadowBase,
    model: Seq<char>,
    provider: Seq<char>,
    outcome: ShadowOutcome,
)
    requires
        compares(c, base, model, provider, outcome),
    ensures
        c.request_id@ == base.request_id@,
        c.client_id is Some <==> base.client_id is Some,
        base.client_id matches Some(id) ==> c.client_id->0@ == id@,
        c.primary_model@ == base.primary_model@,
        c.primary_provider@ == provider_name(base.primary_provider),
        c.primary_cost == base.primary_cost,
        c.primary_latency_ms == base.primary_latency_ms,
        c.primary_output_chars == base.primary_output_chars,
        c.shadow_model@ == model,
        c.shadow_provider@ == provider,
{
}

/// A second call that was made is recorded with its cost, latency and length and no error; one that was
/// not, or that failed, with the reason and nothing else.
pub proof fn law_comparisons_tell_what_came_of_the_second_call(
    c: ShadowComparison,
    base: ShadowBase,
    model: Seq<char>,
    provider: Seq<char>,
    outcome: ShadowOutcome,
)
    requires
        compares(c, base, model, provider, outcome),
    ensures
        outcome matches ShadowOutcome::Done { cost, latency_ms, output_chars } ==> c.shadow_cost
            == Some(cost) && c.shadow_latency_ms == Some(latency_ms) && c.shadow_output_chars
            == Some(output_chars) && c.shadow_error is None,
        outcome matches ShadowOutcome::Failed(reason) ==> c.shadow_cost is None
            && c.shadow_latency_ms is None && c.shadow_output_chars is None && (
        c.shadow_error matches Some(e) && e@ == reason),
{
}

/// A second call costs what its model costs; where that is not known, what a flagship model would have
/// cost for its own tokens.
pub proof fn law_second_calls_cost_what_they_used(a: ShadowAnswer)
    ensures
        a.cost matches Some(c) ==> shadow_cost(a) == c,
        a.cost is None ==> shadow_cost(a) == 500 * a.result.input_tokens + 3000
            * a.result.output_tokens,
{
}

} // verus!
