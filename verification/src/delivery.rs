//! Delivery to Discord: how a failed direct message is classified, what the
//! bot does after each outcome, and the retry rule of webhook posts.

use vstd::prelude::*;
use vstd::string::*;
use crate::numbers::{parse_u64, unsigned_syntax, unsigned_value};
use crate::text::{i64_text, signed_decimal, u64_text, decimal};

verus! {

/// Why a direct message could not be delivered.
pub enum DmError {
    /// Discord answered 403: the recipient has DMs disabled, has blocked the
    /// bot, or no longer shares a guild with it. `code` is Discord's JSON
    /// error code when present.
    DmsClosed { code: Option<i64> },
    /// 429 after the HTTP client's own retries.
    RateLimited,
    /// Anything else: network, 5xx, malformed payload.
    Other(String),
}

/// How `Option<i64>` is shown by `{:?}`.
pub open spec fn option_debug(code: Option<i64>) -> Seq<char> {
    match code {
        Some(n) => "Some("@ + signed_decimal(n as int) + ")"@,
        None => "None"@,
    }
}

/// The message of a delivery error.
pub open spec fn dm_error_text(e: DmError) -> Seq<char> {
    match e {
        DmError::DmsClosed { code } => "recipient has DMs closed or blocked the bot (discord code "@
            + option_debug(code) + ")"@,
        DmError::RateLimited => "rate limited"@,
        DmError::Other(m) => "send failed: "@ + m@,
    }
}

impl DmError {
    /// The error's message.
    pub fn to_string(&self) -> (s: String)
        ensures
            s@ == dm_error_text(*self),
    {
        match self {
            DmError::DmsClosed { code } => {
                let mut s = String::from_str(
                    "recipient has DMs closed or blocked the bot (discord code ",
                );
                match code {
                    Some(n) => {
                        s.append("Some(");
                        let t = i64_text(*n);
                        s.append(t.as_str());
                        s.append(")");
                    },
                    None => s.append("None"),
                }
                s.append(")");
                s
            },
            DmError::RateLimited => String::from_str("rate limited"),
            DmError::Other(m) => {
                let mut s = String::from_str("send failed: ");
                s.append(m.as_str());
                s
            },
        }
    }
}

/// Classifies a failed send. `status` is the HTTP status when Discord
/// answered with an unsuccessful response (`None` for any other failure),
/// `code` the JSON error code of that response, and `message` the failure's
/// text.
pub fn classify_dm_failure(status: Option<u16>, code: i64, message: String) -> (e: DmError)
    ensures
        e == match status {
            Some(403) => DmError::DmsClosed { code: Some(code) },
            Some(429) => DmError::RateLimited,
            _ => DmError::Other(message),
        },
{
    match status {
        Some(403) => DmError::DmsClosed { code: Some(code) },
        Some(429) => DmError::RateLimited,
        _ => DmError::Other(message),
    }
}

/// What is recorded for a subscription after a DM attempt.
#[derive(Debug, Clone, Copy, PartialEq, Eq, Structural)]
pub enum DmFollowUp {
    /// Delivered: the run of consecutive refusals ends.
    ClearFailures,
    /// Refused because DMs are closed: one more consecutive refusal.
    CountRefusal,
    /// A transient failure: nothing is recorded.
    Ignore,
}

/// The follow-up of a DM attempt.
pub fn dm_follow_up(outcome: &Result<(), DmError>) -> (f: DmFollowUp)
    ensures
        f == match outcome {
            Ok(()) => DmFollowUp::ClearFailures,
            Err(DmError::DmsClosed { .. }) => DmFollowUp::CountRefusal,
            Err(_) => DmFollowUp::Ignore,
        },
{
    match outcome {
        Ok(()) => DmFollowUp::ClearFailures,
        Err(DmError::DmsClosed { .. }) => DmFollowUp::CountRefusal,
        Err(_) => DmFollowUp::Ignore,
    }
}

/// Whether a subscription is flagged DM-blocked (and kept) once its run of
/// refusals has reached `count`: at `threshold` or more, unless already
/// flagged.
pub fn should_flag_blocked(count: i64, threshold: i64, already_blocked: bool) -> (b: bool)
    ensures
        b == (count >= threshold && !already_blocked),
{
    count >= threshold && !already_blocked
}

/// Whether the delegator digest gives up a subscription once its run of
/// refusals has reached `count`.
pub fn should_auto_unsubscribe(count: i64, threshold: i64) -> (b: bool)
    ensures
        b == (count >= threshold),
{
    count >= threshold
}

/// The Discord user id stored with a subscription, when it is numeric.
pub fn dm_recipient(user_id: &str) -> (r: Option<u64>)
    ensures
        r is Some <==> (unsigned_syntax(user_id@) && unsigned_value(user_id@) <= u64::MAX),
        r matches Some(id) ==> id == unsigned_value(user_id@),
{
    match parse_u64(user_id) {
        Ok(id) => Some(id),
        Err(_) => None,
    }
}

/// How many times a webhook post is attempted.
pub const WEBHOOK_MAX_ATTEMPTS: u32 = 3;

/// What to do after one webhook response.
#[derive(Debug, Clone, Copy, PartialEq, Eq, Structural)]
pub enum WebhookStep {
    /// 2xx: done.
    Delivered,
    /// 429 with attempts left: pause as long as Discord asks, then post
    /// again.
    Retry,
    /// 5xx with attempts left: wait `wait_secs` seconds, then post again.
    Backoff { wait_secs: u64 },
    /// 429 on the last attempt: give up.
    GiveUp,
    /// A 5xx on the last attempt, or any other status: fail.
    Fail,
}

/// Largest pause before retrying a server error, in seconds.
pub const BACKOFF_CAP_SECS: u64 = 30;

/// `2^n`.
pub open spec fn doubling(n: nat) -> nat
    decreases n,
{
    if n == 0 {
        1
    } else {
        2 * doubling((n - 1) as nat)
    }
}

/// The pause before retrying a server error answered to attempt number
/// `attempt` (from 1): one second, doubling with each attempt, at most
/// `BACKOFF_CAP_SECS`.
pub open spec fn backoff_secs(attempt: nat) -> nat {
    let d = doubling(if attempt == 0 { 0 } else { (attempt - 1) as nat });
    if d < BACKOFF_CAP_SECS {
        d
    } else {
        BACKOFF_CAP_SECS as nat
    }
}

/// The step after response `status` to attempt number `attempt` (from 1):
/// rate limits and server errors are retried, up to `WEBHOOK_MAX_ATTEMPTS`
/// attempts in all; a server error first waits `backoff_secs(attempt)`.
pub open spec fn step_after(status: u16, attempt: u32) -> WebhookStep {
    if 200 <= status <= 299 {
        WebhookStep::Delivered
    } else if status == 429 || 500 <= status <= 599 {
        if attempt < WEBHOOK_MAX_ATTEMPTS {
            if status == 429 {
                WebhookStep::Retry
            } else {
                WebhookStep::Backoff { wait_secs: backoff_secs(attempt as nat) as u64 }
            }
        } else if status == 429 {
            WebhookStep::GiveUp
        } else {
            WebhookStep::Fail
        }
    } else {
        WebhookStep::Fail
    }
}

proof fn doubling_grows(i: nat, j: nat)
    requires
        i <= j,
    ensures
        doubling(i) <= doubling(j),
        doubling(i) >= 1,
    decreases j,
{
    if j > i {
        doubling_grows(i, (j - 1) as nat);
    } else if i > 0 {
        doubling_grows((i - 1) as nat, (i - 1) as nat);
    }
}

/// The pause before retrying a server error answered to attempt `attempt`.
pub fn server_error_backoff(attempt: u32) -> (w: u64)
    ensures
        w == backoff_secs(attempt as nat),
{
    let target: u32 = if attempt == 0 { 0 } else { attempt - 1 };
    let mut w: u64 = 1;
    let mut i: u32 = 0;
    while i < target && w < BACKOFF_CAP_SECS
        invariant
            i <= target,
            w == doubling(i as nat),
            w <= 2 * BACKOFF_CAP_SECS,
        decreases target - i,
    {
        w = w * 2;
        i += 1;
    }
    proof {
        doubling_grows(i as nat, target as nat);
    }
    if w < BACKOFF_CAP_SECS {
        w
    } else {
        BACKOFF_CAP_SECS
    }
}

/// The step after response `status` to attempt number `attempt` (from 1).
pub fn webhook_step(status: u16, attempt: u32) -> (s: WebhookStep)
    ensures
        s == step_after(status, attempt),
{
    if 200 <= status && status <= 299 {
        WebhookStep::Delivered
    } else if status == 429 || (500 <= status && status <= 599) {
        if attempt < WEBHOOK_MAX_ATTEMPTS {
            if status == 429 {
                WebhookStep::Retry
            } else {
                WebhookStep::Backoff { wait_secs: server_error_backoff(attempt) }
            }
        } else if status == 429 {
            WebhookStep::GiveUp
        } else {
            WebhookStep::Fail
        }
    } else {
        WebhookStep::Fail
    }
}

/// A post stops after at most `WEBHOOK_MAX_ATTEMPTS` attempts: no status
/// asks for another attempt once that many were made.
pub proof fn webhook_attempts_are_bounded(status: u16, attempt: u32)
    requires
        attempt >= WEBHOOK_MAX_ATTEMPTS,
    ensures
        step_after(status, attempt) != WebhookStep::Retry,
        !(step_after(status, attempt) is Backoff),
{
}

/// Server-error pauses start at one second, double with each attempt and
/// never exceed `BACKOFF_CAP_SECS`.
pub proof fn backoff_doubles_up_to_the_cap(attempt: nat)
    requires
        attempt >= 1,
    ensures
        backoff_secs(1) == 1,
        1 <= backoff_secs(attempt) <= BACKOFF_CAP_SECS,
        backoff_secs(attempt + 1) == if 2 * backoff_secs(attempt) < BACKOFF_CAP_SECS {
            2 * backoff_secs(attempt)
        } else {
            BACKOFF_CAP_SECS as nat
        },
{
    doubling_grows(0, (attempt - 1) as nat);
    assert(doubling(attempt) == 2 * doubling((attempt - 1) as nat));
}

/// A post fanned out to several webhooks succeeds when at least one of
/// them accepted it.
pub fn fan_out_delivered(accepted: &Vec<bool>) -> (b: bool)
    ensures
        b == exists|i: int| 0 <= i < accepted@.len() && accepted@[i],
{
    let mut i: usize = 0;
    while i < accepted.len()
        invariant
            i <= accepted@.len(),
            forall|j: int| 0 <= j < i ==> !accepted@[j],
        decreases accepted@.len() - i,
    {
        if accepted[i] {
            return true;
        }
        i += 1;
    }
    false
}

/// Whether the rate-limit bucket is spent, so the next post must wait for
/// it to refill: the remaining count is known and not positive.
pub fn bucket_exhausted(remaining: Option<i64>) -> (b: bool)
    ensures
        b == (remaining matches Some(r) && r <= 0),
{
    match remaining {
        Some(r) => r <= 0,
        None => false,
    }
}

/// Whether a 429 applies to the whole bot rather than one route: the scope
/// header says `global`, or the body's `global` flag is set.
pub fn rate_limit_is_global(scope: Option<&str>, body_global: bool) -> (b: bool)
    ensures
        b == ((scope matches Some(s) && s@ == "global"@) || body_global),
{
    let header_global = match scope {
        Some(s) => crate::text::str_equal(s, "global"),
        None => false,
    };
    header_global || body_global
}

/// The error after the last attempt was rate limited.
pub open spec fn give_up_text(global: bool) -> Seq<char> {
    "discord 429 after "@ + decimal(WEBHOOK_MAX_ATTEMPTS as nat) + " attempts (global="@ + (if global {
        "true"@
    } else {
        "false"@
    }) + ")"@
}

/// The error after the last attempt was rate limited.
pub fn give_up_message(global: bool) -> (s: String)
    ensures
        s@ == give_up_text(global),
{
    let mut s = String::from_str("discord 429 after ");
    let n = u64_text(WEBHOOK_MAX_ATTEMPTS as u64);
    s.append(n.as_str());
    s.append(" attempts (global=");
    if global {
        s.append("true");
    } else {
        s.append("false");
    }
    s.append(")");
    s
}

/// The error for any other unsuccessful response; `status` is the status
/// as displayed (`404 Not Found`) and `body` the response text.
pub fn webhook_failure_message(status: &str, body: &str) -> (s: String)
    ensures
        s@ == "discord webhook failed: status="@ + status@ + " body="@ + body@,
{
    let mut s = String::from_str("discord webhook failed: status=");
    s.append(status);
    s.append(" body=");
    s.append(body);
    s
}

} // verus!
