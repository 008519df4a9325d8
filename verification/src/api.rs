//! Request and response shapes of the chat-completion API.

use vstd::prelude::*;
use vstd::arithmetic::power2::{lemma2_to64_rest, lemma_pow2_strictly_increases, lemma_pow2_unfold, pow2};

verus! {

/// Tool definition in OpenAI format.
#[derive(Debug, Clone)]
pub struct ToolDef {
    pub tool_type: String,
    pub function: ToolFunction,
}

/// Name, description and JSON-schema parameters of a tool.
#[derive(Debug, Clone)]
pub struct ToolFunction {
    pub name: String,
    pub description: String,
    pub parameters: serde_json::Value,
}

/// Chat completion response.
#[derive(Debug)]
pub struct ChatResponse {
    pub id: String,
    pub choices: Vec<Choice>,
    pub usage: Option<Usage>,
}

/// One choice of a response.
#[derive(Debug)]
pub struct Choice {
    pub index: u32,
    pub message: ResponseMessage,
    pub finish_reason: Option<String>,
}

/// The message of a choice.
#[derive(Debug)]
pub struct ResponseMessage {
    pub role: String,
    pub content: Option<String>,
    pub tool_calls: Option<Vec<ResponseToolCall>>,
}

/// A tool call in a response.
#[derive(Debug, Clone)]
pub struct ResponseToolCall {
    pub id: String,
    pub call_type: Option<String>,
    pub function: ResponseToolFunction,
}

/// Name and argument text of a called tool.
#[derive(Debug, Clone)]
pub struct ResponseToolFunction {
    pub name: String,
    pub arguments: String,
}

/// Token usage.
#[derive(Debug, Clone)]
pub struct Usage {
    pub prompt_tokens: u32,
    pub completion_tokens: u32,
    pub total_tokens: u32,
    pub prompt_cache_hit_tokens: u32,
    pub prompt_cache_miss_tokens: u32,
}

/// Server-sent streaming event.
#[derive(Debug)]
pub enum StreamEvent {
    /// A text chunk.
    Chunk(String),
    /// The final complete response.
    Done(ResponseMessage, Option<Usage>),
    /// An error.
    Error(String),
}

/// Balance of one currency.
#[derive(Debug, Clone)]
pub struct BalanceInfo {
    pub currency: String,
    pub total_balance: String,
}

/// Streamed tool call data.
#[derive(Debug, Clone)]
pub struct ToolCallData {
    pub id: String,
    pub name: String,
    pub arguments: String,
}

/// Errors of the API client.
#[derive(Debug)]
pub enum ApiError {
    /// The request failed (network, timeout); the transport's message.
    Request(String),
    /// The server answered with an error status, and the start of the body.
    HttpStatus(u16, String),
    /// The response could not be read; the reader's message.
    Parse(String),
    /// Every retry failed.
    RetryExhausted,
}

/// Whether an error is worth another try: network failures and server
/// errors (5xx) are, client errors, unreadable responses and an exhausted
/// retry budget are not.
pub open spec fn retryable_spec(e: ApiError) -> bool {
    match e {
        ApiError::Request(_) => true,
        ApiError::HttpStatus(status, _) => status >= 500,
        ApiError::Parse(_) => false,
        ApiError::RetryExhausted => false,
    }
}

impl ApiError {
    /// Whether the failed request may be retried.
    pub fn is_retryable(&self) -> (r: bool)
        ensures
            r == retryable_spec(*self),
    {
        match self {
            ApiError::Request(_) => true,
            ApiError::HttpStatus(status, _) => *status >= 500,
            ApiError::Parse(_) => false,
            ApiError::RetryExhausted => false,
        }
    }
}

/// Milliseconds to wait before retry number `attempt` (the first retry is
/// number 1): 500 ms, doubling with each retry.
pub open spec fn retry_delay_spec(attempt: nat) -> nat {
    500 * pow2((attempt - 1) as nat)
}

/// The wait before retry number `attempt`.
pub fn retry_delay_ms(attempt: u32) -> (r: u64)
    requires
        1 <= attempt <= 56,
    ensures
        r == retry_delay_spec(attempt as nat),
{
    let mut d: u64 = 500;
    let mut i: u32 = 1;
    proof {
        vstd::arithmetic::power2::lemma2_to64();
        lemma2_to64_rest();
    }
    while i < attempt
        invariant
            1 <= i <= attempt <= 56,
            d == 500 * pow2((i - 1) as nat),
            pow2(55) == 0x80000000000000,
        decreases attempt - i,
    {
        proof {
            lemma_pow2_unfold(i as nat);
            if i < 56 {
                if (i as nat) < 55 {
                    lemma_pow2_strictly_increases(i as nat, 55);
                }
            }
        }
        d = d * 2;
        i = i + 1;
    }
    d
}

/// Whether the client tries again after the error `e`: the errors
/// `retryable_spec` admits, and rate limiting (HTTP 429).
pub open spec fn retried_spec(e: ApiError) -> bool {
    retryable_spec(e) || (e matches ApiError::HttpStatus(status, _) && status == 429)
}

/// What to do after try number `attempt` (0 for the first) failed with an
/// error that is `retryable` or not, when `max_retries` retries are
/// allowed: wait the returned milliseconds and try again, or give up.
pub open spec fn retry_plan_spec(attempt: nat, max_retries: nat, retryable: bool) -> Option<nat> {
    if retryable && attempt < max_retries { Some(retry_delay_spec(attempt + 1)) } else { None }
}

/// The wait before the next try after try `attempt` failed, or none when
/// the error is final. Rate limiting (429) is retried like a server error.
pub fn retry_plan(attempt: u32, max_retries: u32, err: &ApiError) -> (r: Option<u64>)
    requires
        attempt < max_retries && retried_spec(*err) ==> attempt < 56,
    ensures
        match r {
            Some(d) => retry_plan_spec(attempt as nat, max_retries as nat, retried_spec(*err)) == Some(d as nat),
            None => retry_plan_spec(attempt as nat, max_retries as nat, retried_spec(*err)) is None,
        },
{
    let rate_limited = match err {
        ApiError::HttpStatus(status, _) => *status == 429,
        _ => false,
    };
    if (err.is_retryable() || rate_limited) && attempt < max_retries {
        Some(retry_delay_ms(attempt + 1))
    } else {
        None
    }
}

/// The start of an error response body kept in an `HttpStatus` error: its
/// first 500 characters.
pub fn error_preview(body: &str) -> (r: String)
    ensures
        r@ == if body@.len() > 500 { body@.take(500) } else { body@ },
{
    let c = crate::text::to_chars(body);
    let n = if c.len() > 500 { 500 } else { c.len() };
    let p = crate::text::slice_to_vec(c.as_slice(), 0, n);
    crate::text::from_chars(p.as_slice())
}

} // verus!
