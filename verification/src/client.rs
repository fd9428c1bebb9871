//! Request policy of the site client: which HTTP statuses are transient,
//! how long to back off, and what to do after each attempt.

use vstd::prelude::*;
use vstd::arithmetic::power2::pow2;

use crate::text::{dec_nat, push_decimal_u64, push_str, string_from_chars};

verus! {

/// Settings of the site client.
#[derive(Debug)]
pub struct ClientConfig {
    /// Least interval between the starts of two requests, in milliseconds.
    pub delay_ms: u64,
    /// Most requests made for one address.
    pub max_attempts: u32,
    /// Timeout of one request, in seconds.
    pub timeout_secs: u64,
    /// Referer sent with every request.
    pub referer: String,
}

/// A successful response: status, final address after redirects, and body.
#[derive(Debug)]
pub struct FetchResponse {
    pub status: u16,
    pub final_url: String,
    pub text: String,
}

/// Statuses worth retrying: too many requests, request timeout, and server
/// errors.
pub open spec fn is_transient(status: u16) -> bool {
    status == 429 || status == 408 || status == 502 || status == 503 || status == 504 || (500
        <= status <= 599)
}

/// Whether a status is worth retrying.
pub fn is_transient_status(status: u16) -> (r: bool)
    ensures
        r == is_transient(status),
{
    status == 429 || status == 408 || status == 502 || status == 503 || status == 504 || (500
        <= status && status <= 599)
}

/// The pause after attempt `attempt` (from 1) before the next one, in
/// milliseconds: 500 doubled per earlier attempt, saturating at `u64::MAX`.
pub open spec fn backoff_spec(attempt: nat) -> nat {
    let b = 500 * pow2((attempt - 1) as nat);
    if b > u64::MAX {
        u64::MAX as nat
    } else {
        b
    }
}

/// The pause after attempt `attempt`.
pub fn backoff_ms(attempt: u32) -> (r: u64)
    requires
        1 <= attempt <= 64,
    ensures
        r == backoff_spec(attempt as nat),
{
    let mut p: u64 = 1;
    let mut e: u32 = 0;
    proof {
        vstd::arithmetic::power2::lemma2_to64();
    }
    while e < attempt - 1
        invariant
            e <= attempt - 1,
            attempt <= 64,
            p == pow2(e as nat),
        decreases attempt - 1 - e,
    {
        proof {
            vstd::arithmetic::power2::lemma_pow2_unfold((e + 1) as nat);
            vstd::arithmetic::power2::lemma_pow2_strictly_increases(e as nat, 63);
            vstd::arithmetic::power2::lemma2_to64_rest();
            assert(pow2(63) == 0x8000_0000_0000_0000);
            assert(p < 0x8000_0000_0000_0000);
        }
        p = p * 2;
        e = e + 1;
    }
    if p > u64::MAX / 500 {
        u64::MAX
    } else {
        p * 500
    }
}

/// What one attempt gave.
#[derive(Debug)]
pub enum Attempt {
    /// A response with this status, from this final address.
    Response { status: u16, final_url: String },
    /// The request failed; `retryable` when it failed to connect, timed out
    /// or could not be sent.
    RequestFailed { retryable: bool, detail: String },
}

/// What the client does after an attempt.
#[derive(Debug)]
pub enum RetryAction {
    /// Read and deliver the body.
    Deliver,
    /// Give up with this message.
    Fail(String),
    /// Wait, then try again; the message is the failure.
    Retry { message: String, backoff_ms: u64 },
}

/// The plain content of an `Attempt`.
pub enum AttemptView {
    Response(u16, Seq<char>),
    RequestFailed(bool, Seq<char>),
}

/// The plain content of a `RetryAction`.
pub enum RetryActionView {
    Deliver,
    Fail(Seq<char>),
    Retry(Seq<char>, u64),
}

/// The view of an attempt.
pub open spec fn attempt_view(a: Attempt) -> AttemptView {
    match a {
        Attempt::Response { status, final_url } => AttemptView::Response(status, final_url@),
        Attempt::RequestFailed { retryable, detail } => AttemptView::RequestFailed(retryable, detail@),
    }
}

/// The view of an action.
pub open spec fn action_view(a: RetryAction) -> RetryActionView {
    match a {
        RetryAction::Deliver => RetryActionView::Deliver,
        RetryAction::Fail(m) => RetryActionView::Fail(m@),
        RetryAction::Retry { message, backoff_ms } => RetryActionView::Retry(message@, backoff_ms),
    }
}

/// After attempt `attempt` of `max_attempts` at `url`: a 2xx response is
/// delivered; another response fails with `HTTP <status> from <final URL>`,
/// and a failed request with `request failed for <url>: <detail>`; a failure
/// is retried after the backoff only when it is transient and attempts
/// remain.
pub open spec fn next_action_spec(url: Seq<char>, attempt: nat, max_attempts: nat, outcome: AttemptView) -> RetryActionView {
    match outcome {
        AttemptView::Response(status, final_url) => if 200 <= status <= 299 {
            RetryActionView::Deliver
        } else {
            let m = "HTTP "@ + dec_nat(status as nat) + " from "@ + final_url;
            if !is_transient(status) || attempt == max_attempts {
                RetryActionView::Fail(m)
            } else {
                RetryActionView::Retry(m, backoff_spec(attempt) as u64)
            }
        },
        AttemptView::RequestFailed(retryable, detail) => {
            let m = "request failed for "@ + url + ": "@ + detail;
            if !retryable || attempt == max_attempts {
                RetryActionView::Fail(m)
            } else {
                RetryActionView::Retry(m, backoff_spec(attempt) as u64)
            }
        },
    }
}

/// Whether an attempt failed in a way worth retrying: a transient status, or
/// a request that failed to connect, timed out or could not be sent.
pub open spec fn retry_due_spec(outcome: AttemptView) -> bool {
    match outcome {
        AttemptView::Response(status, _) => is_transient(status),
        AttemptView::RequestFailed(retryable, _) => retryable,
    }
}

/// Whether an attempt failed in a way worth retrying.
pub fn retry_due(outcome: &Attempt) -> (r: bool)
    ensures
        r == retry_due_spec(attempt_view(*outcome)),
{
    match outcome {
        Attempt::Response { status, .. } => is_transient_status(*status),
        Attempt::RequestFailed { retryable, .. } => *retryable,
    }
}

/// Decides what to do after an attempt. A retry after attempt 65 or later is
/// left out: its backoff would double 500 by a power of two of 2^64 or more,
/// which `u64` cannot hold.
pub fn next_action(url: &str, attempt: u32, max_attempts: u32, outcome: &Attempt) -> (r: RetryAction)
    requires
        1 <= attempt <= max_attempts,
        attempt < max_attempts && retry_due_spec(attempt_view(*outcome)) ==> attempt <= 64,
    ensures
        action_view(r) == next_action_spec(url@, attempt as nat, max_attempts as nat, attempt_view(*outcome)),
{
    match outcome {
        Attempt::Response { status, final_url } => {
            if 200 <= *status && *status <= 299 {
                return RetryAction::Deliver;
            }
            let mut m: Vec<char> = Vec::new();
            push_str(&mut m, "HTTP ");
            push_decimal_u64(&mut m, *status as u64);
            push_str(&mut m, " from ");
            push_str(&mut m, final_url.as_str());
            let message = string_from_chars(&m);
            if !is_transient_status(*status) || attempt == max_attempts {
                RetryAction::Fail(message)
            } else {
                RetryAction::Retry { message, backoff_ms: backoff_ms(attempt) }
            }
        },
        Attempt::RequestFailed { retryable, detail } => {
            let mut m: Vec<char> = Vec::new();
            push_str(&mut m, "request failed for ");
            push_str(&mut m, url);
            push_str(&mut m, ": ");
            push_str(&mut m, detail.as_str());
            let message = string_from_chars(&m);
            if !*retryable || attempt == max_attempts {
                RetryAction::Fail(message)
            } else {
                RetryAction::Retry { message, backoff_ms: backoff_ms(attempt) }
            }
        },
    }
}

/// The client never retries after its last attempt, and delivers only
/// successful responses.
pub proof fn lemma_retry_bounded(url: Seq<char>, attempt: nat, max_attempts: nat, outcome: AttemptView)
    requires
        1 <= attempt <= max_attempts,
    ensures
        next_action_spec(url, attempt, max_attempts, outcome) is Retry ==> attempt < max_attempts,
        next_action_spec(url, attempt, max_attempts, outcome) is Deliver ==> (outcome matches AttemptView::Response(s, _) && 200 <= s <= 299),
{
}

/// Checks the number of attempts allowed: at least one.
pub fn check_max_attempts(max_attempts: u32) -> (r: Result<(), String>)
    ensures
        r is Ok <==> max_attempts >= 1,
        r matches Err(m) ==> m@ == "max_attempts must be at least 1"@,
{
    if max_attempts == 0 {
        return Err("max_attempts must be at least 1".to_owned());
    }
    Ok(())
}

} // verus!
