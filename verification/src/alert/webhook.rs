//! Webhook notification decisions: which payload a URL gets, the alert text,
//! how a URL is shown in logs, and when a failed delivery is retried.

use vstd::prelude::*;
use vstd::arithmetic::power::pow;
use vstd::arithmetic::power2::{lemma_pow2, lemma_pow2_strictly_increases, lemma_pow2_unfold, pow2};

use crate::alert::{Alert, AlertType};
use crate::config::WebhookUrl;
use crate::text::{chars_to_string, contains_chars, contains_run, decimal, push_decimal, push_str, str_chars};

verus! {

/// Deliveries are attempted at most this many times.
pub const WEBHOOK_MAX_ATTEMPTS: u32 = 3;

/// The delay before the first retry, in milliseconds; each further retry
/// waits twice as long as the one before.
pub const WEBHOOK_RETRY_DELAY_MS: u64 = 250;

/// Per-request timeout, in seconds.
pub const WEBHOOK_TIMEOUT_SECS: u64 = 10;

pub open spec fn slack_host() -> Seq<char> {
    "hooks.slack.com"@
}

pub open spec fn is_slack_spec(host: Option<Seq<char>>) -> bool {
    host == Some(slack_host())
}

pub open spec fn is_discord_spec(host: Option<Seq<char>>, path: Seq<char>) -> bool {
    (host == Some("discord.com"@) || host == Some("discordapp.com"@)) && contains_run(path, "/api/webhooks/"@)
}

/// Whether the URL is a Slack incoming webhook.
pub fn is_slack_webhook(url: &WebhookUrl) -> (r: bool)
    ensures
        r == is_slack_spec(url@.host),
{
    match url.host_str() {
        Some(h) => crate::text::chars_eq_str(str_chars(h).as_slice(), "hooks.slack.com"),
        None => false,
    }
}

/// Whether the URL is a Discord webhook.
pub fn is_discord_webhook(url: &WebhookUrl) -> (r: bool)
    ensures
        r == is_discord_spec(url@.host, url@.path),
{
    let host_ok = match url.host_str() {
        Some(h) => {
            let hv = str_chars(h);
            crate::text::chars_eq_str(hv.as_slice(), "discord.com") || crate::text::chars_eq_str(hv.as_slice(), "discordapp.com")
        },
        None => false,
    };
    if !host_ok {
        return false;
    }
    let path = str_chars(url.path());
    let needle = str_chars("/api/webhooks/");
    contains_chars(path.as_slice(), needle.as_slice())
}

/// How a URL is shown in logs: scheme, host and port only.
pub open spec fn redacted_spec(scheme: Seq<char>, host: Option<Seq<char>>, port: Option<u16>) -> Seq<char> {
    match (host, port) {
        (Some(h), Some(p)) => scheme + "://"@ + h + ":"@ + decimal(p as nat) + "/..."@,
        (Some(h), None) => scheme + "://"@ + h + "/..."@,
        (None, _) => "<redacted-webhook-url>"@,
    }
}

/// The URL with its path, query and credentials removed, for logging.
pub fn redact_webhook_url(url: &WebhookUrl) -> (s: String)
    ensures
        s@ == redacted_spec(url@.scheme, url@.host, url@.port),
{
    match url.host_str() {
        Some(host) => {
            let mut s = String::new();
            push_str(&mut s, url.scheme());
            push_str(&mut s, "://");
            push_str(&mut s, host);
            match url.port() {
                Some(p) => {
                    push_str(&mut s, ":");
                    push_decimal(&mut s, p as u64);
                },
                None => {},
            }
            push_str(&mut s, "/...");
            s
        },
        None => chars_to_string(str_chars("<redacted-webhook-url>").as_slice()),
    }
}

/// `{:.1}` of a whole percentage.
pub open spec fn percent_one_decimal(p: u8) -> Seq<char> {
    decimal(p as nat) + ".0"@
}

/// The notification text of an alert; `current_value` is the reading that
/// triggered a CPU or RAM alert, rendered with one decimal.
pub open spec fn alert_message_spec(alert: crate::alert::AlertView, current_value: Seq<char>) -> Seq<char> {
    match alert.alert_type {
        AlertType::Cpu => "Sentinel alert: CPU at "@ + current_value + "% exceeded "@
            + percent_one_decimal(alert.threshold) + "% for "@ + decimal(alert.consecutive_readings as nat)
            + " consecutive readings at "@ + alert.timestamp + "."@,
        AlertType::Ram => "Sentinel alert: RAM at "@ + current_value + "% exceeded "@
            + percent_one_decimal(alert.threshold) + "% for "@ + decimal(alert.consecutive_readings as nat)
            + " consecutive readings at "@ + alert.timestamp + "."@,
        AlertType::Collector => "Sentinel alert: collector failed "@ + decimal(alert.consecutive_readings as nat)
            + " time(s) as of "@ + alert.timestamp + ". "@ + match alert.message {
                Some(m) => m,
                None => "system metric collection failed"@,
            },
    }
}

/// Builds the human-readable text of an alert.
pub fn format_alert_message(alert: &Alert, current_value: &str) -> (s: String)
    ensures
        s@ == alert_message_spec(alert@, current_value@),
{
    let mut s = String::new();
    match alert.alert_type {
        AlertType::Cpu | AlertType::Ram => {
            if alert.alert_type == AlertType::Cpu {
                push_str(&mut s, "Sentinel alert: CPU at ");
            } else {
                push_str(&mut s, "Sentinel alert: RAM at ");
            }
            push_str(&mut s, current_value);
            push_str(&mut s, "% exceeded ");
            push_decimal(&mut s, alert.threshold as u64);
            push_str(&mut s, ".0");
            push_str(&mut s, "% for ");
            push_decimal(&mut s, alert.consecutive_readings as u64);
            push_str(&mut s, " consecutive readings at ");
            push_str(&mut s, alert.timestamp.as_str());
            push_str(&mut s, ".");
        },
        AlertType::Collector => {
            push_str(&mut s, "Sentinel alert: collector failed ");
            push_decimal(&mut s, alert.consecutive_readings as u64);
            push_str(&mut s, " time(s) as of ");
            push_str(&mut s, alert.timestamp.as_str());
            push_str(&mut s, ". ");
            match &alert.message {
                Some(m) => push_str(&mut s, m.as_str()),
                None => push_str(&mut s, "system metric collection failed"),
            }
        },
    }
    s
}

/// The body posted to a webhook: Slack and Discord get the alert text in the
/// field they display; any other endpoint gets the structured alert.
pub enum WebhookRequestBody {
    Slack { text: String },
    Discord { content: String },
    Generic(Alert),
}

fn copy_alert(alert: &Alert) -> (a: Alert)
    ensures
        a@ == alert@,
{
    Alert {
        alert_type: alert.alert_type,
        threshold: alert.threshold,
        consecutive_readings: alert.consecutive_readings,
        timestamp: chars_to_string(str_chars(alert.timestamp.as_str()).as_slice()),
        message: match &alert.message {
            Some(m) => Some(chars_to_string(str_chars(m.as_str()).as_slice())),
            None => None,
        },
    }
}

impl WebhookRequestBody {
    /// Chooses the body for `url`.
    pub fn from_alert(url: &WebhookUrl, alert: &Alert, current_value: &str) -> (b: WebhookRequestBody)
        ensures
            match b {
                WebhookRequestBody::Slack { text } => is_slack_spec(url@.host)
                    && text@ == alert_message_spec(alert@, current_value@),
                WebhookRequestBody::Discord { content } => !is_slack_spec(url@.host)
                    && is_discord_spec(url@.host, url@.path)
                    && content@ == alert_message_spec(alert@, current_value@),
                WebhookRequestBody::Generic(a) => !is_slack_spec(url@.host)
                    && !is_discord_spec(url@.host, url@.path)
                    && a@ == alert@,
            },
    {
        let message = format_alert_message(alert, current_value);
        if is_slack_webhook(url) {
            return WebhookRequestBody::Slack { text: message };
        }
        if is_discord_webhook(url) {
            return WebhookRequestBody::Discord { content: message };
        }
        WebhookRequestBody::Generic(copy_alert(alert))
    }
}

/// HTTP statuses worth retrying: 429 Too Many Requests and server errors.
pub open spec fn retryable_status_spec(status: u16) -> bool {
    status == 429 || (500 <= status && status <= 599)
}

pub fn is_retryable_status(status: u16) -> (r: bool)
    ensures
        r == retryable_status_spec(status),
        r <==> (status == 429 || (500 <= status && status <= 599)),
{
    status == 429 || (500 <= status && status <= 599)
}

/// Transport failures worth retrying: connection failures, timeouts and
/// failures while sending the request.
pub fn is_retryable_error(is_connect: bool, is_timeout: bool, is_request: bool) -> (r: bool)
    ensures
        r == (is_connect || is_timeout || is_request),
{
    is_connect || is_timeout || is_request
}

/// Exponential backoff: the delay, in milliseconds, before the retry that
/// follows attempt `attempt` (counted from 1) is the base delay doubled for
/// each attempt after the first — 250, 500, 1000, ... — saturating at
/// `u64::MAX`. Before any attempt (0) there is no delay.
pub open spec fn retry_delay_spec(attempt: nat) -> u64 {
    if attempt == 0 {
        0
    } else if WEBHOOK_RETRY_DELAY_MS * pow2((attempt - 1) as nat) > u64::MAX {
        u64::MAX
    } else {
        (WEBHOOK_RETRY_DELAY_MS * pow2((attempt - 1) as nat)) as u64
    }
}

pub fn retry_delay(attempt: usize) -> (ms: u64)
    ensures
        ms == retry_delay_spec(attempt as nat),
{
    if attempt == 0 {
        return 0;
    }
    let mut delay: u64 = WEBHOOK_RETRY_DELAY_MS;
    let mut i: usize = 1;
    proof {
        assert(pow2(0) == 1) by {
            lemma_pow2(0);
            reveal(pow);
        }
    }
    while i < attempt && delay < u64::MAX
        invariant
            1 <= i <= attempt,
            delay == retry_delay_spec(i as nat),
        decreases attempt - i,
    {
        proof {
            lemma_pow2_unfold(i as nat);
        }
        if delay > u64::MAX / 2 {
            delay = u64::MAX;
        } else {
            delay = delay * 2;
        }
        i = i + 1;
    }
    proof {
        if i < attempt {
            lemma_pow2_strictly_increases((i - 1) as nat, (attempt - 1) as nat);
        }
    }
    delay
}

/// What one delivery attempt came to.
#[derive(Debug, Clone, Copy, PartialEq, Eq, Structural)]
pub enum AttemptOutcome {
    /// The endpoint answered with this HTTP status.
    Status(u16),
    /// The request failed before an answer; `retryable` as
    /// [`is_retryable_error`] classifies the failure.
    TransportError { retryable: bool },
}

/// What the dispatcher does after an attempt.
#[derive(Debug, Clone, Copy, PartialEq, Eq, Structural)]
pub enum WebhookStep {
    Delivered,
    RetryAfterMs(u64),
    FailedStatus(u16),
    FailedTransport,
}

pub open spec fn next_step_spec(attempt: u32, outcome: AttemptOutcome) -> WebhookStep {
    match outcome {
        AttemptOutcome::Status(s) => if 200 <= s <= 299 {
            WebhookStep::Delivered
        } else if attempt < WEBHOOK_MAX_ATTEMPTS && retryable_status_spec(s) {
            WebhookStep::RetryAfterMs(retry_delay_spec(attempt as nat))
        } else {
            WebhookStep::FailedStatus(s)
        },
        AttemptOutcome::TransportError { retryable } => if attempt < WEBHOOK_MAX_ATTEMPTS && retryable {
            WebhookStep::RetryAfterMs(retry_delay_spec(attempt as nat))
        } else {
            WebhookStep::FailedTransport
        },
    }
}

/// Decides what follows attempt number `attempt` (counted from 1): a 2xx
/// status is a delivery; a retryable status or transport failure is retried
/// after [`retry_delay`] of that attempt unless it was the last; anything else
/// fails with what happened.
pub fn next_step(attempt: u32, outcome: AttemptOutcome) -> (step: WebhookStep)
    requires
        1 <= attempt <= WEBHOOK_MAX_ATTEMPTS,
    ensures
        step == next_step_spec(attempt, outcome),
{
    match outcome {
        AttemptOutcome::Status(s) => {
            if 200 <= s && s <= 299 {
                WebhookStep::Delivered
            } else if attempt < WEBHOOK_MAX_ATTEMPTS && is_retryable_status(s) {
                WebhookStep::RetryAfterMs(retry_delay(attempt as usize))
            } else {
                WebhookStep::FailedStatus(s)
            }
        },
        AttemptOutcome::TransportError { retryable } => {
            if attempt < WEBHOOK_MAX_ATTEMPTS && retryable {
                WebhookStep::RetryAfterMs(retry_delay(attempt as usize))
            } else {
                WebhookStep::FailedTransport
            }
        },
    }
}

/// Status law: before the last attempt, 429 Too Many Requests and every
/// server error (5xx) are retried after the backoff delay of that attempt,
/// a 2xx status is a delivery, and every other status fails at once; at the
/// last attempt every status that is not 2xx fails.
pub proof fn lemma_status_decisions(attempt: u32, s: u16)
    requires
        1 <= attempt <= WEBHOOK_MAX_ATTEMPTS,
    ensures
        200 <= s <= 299 ==> next_step_spec(attempt, AttemptOutcome::Status(s)) == WebhookStep::Delivered,
        attempt < WEBHOOK_MAX_ATTEMPTS && (s == 429 || 500 <= s <= 599)
            ==> next_step_spec(attempt, AttemptOutcome::Status(s)) == WebhookStep::RetryAfterMs(retry_delay_spec(attempt as nat)),
        !(200 <= s <= 299) && !(s == 429 || 500 <= s <= 599)
            ==> next_step_spec(attempt, AttemptOutcome::Status(s)) == WebhookStep::FailedStatus(s),
        attempt == WEBHOOK_MAX_ATTEMPTS && !(200 <= s <= 299)
            ==> next_step_spec(attempt, AttemptOutcome::Status(s)) == WebhookStep::FailedStatus(s),
        attempt == 1 && (s == 429 || 500 <= s <= 599)
            ==> next_step_spec(attempt, AttemptOutcome::Status(s)) == WebhookStep::RetryAfterMs(250),
        attempt == 2 && (s == 429 || 500 <= s <= 599)
            ==> next_step_spec(attempt, AttemptOutcome::Status(s)) == WebhookStep::RetryAfterMs(500),
{
    assert(pow2(0) == 1) by {
        lemma_pow2(0);
        reveal(pow);
    }
    lemma_pow2_unfold(1);
}

/// The delivery loop over the outcomes the endpoint gives, starting at
/// attempt `attempt`: the final step and the number of attempts made.
pub open spec fn run_delivery(attempt: u32, outcomes: Seq<AttemptOutcome>) -> (WebhookStep, nat)
    decreases WEBHOOK_MAX_ATTEMPTS - attempt, outcomes.len(),
{
    if outcomes.len() == 0 || attempt == 0 || attempt > WEBHOOK_MAX_ATTEMPTS {
        (WebhookStep::FailedTransport, 0)
    } else {
        match next_step_spec(attempt, outcomes[0]) {
            WebhookStep::RetryAfterMs(_) => {
                let (step, n) = run_delivery((attempt + 1) as u32, outcomes.drop_first());
                (step, n + 1)
            },
            step => (step, 1),
        }
    }
}

/// Retry law: however the endpoint answers, a delivery makes at most
/// [`WEBHOOK_MAX_ATTEMPTS`] attempts, ends on a step that is not a retry, and
/// ends delivered exactly when one of the attempts it made got a 2xx status.
pub proof fn lemma_delivery_bounded(outcomes: Seq<AttemptOutcome>, attempt: u32)
    requires
        1 <= attempt <= WEBHOOK_MAX_ATTEMPTS,
        outcomes.len() >= WEBHOOK_MAX_ATTEMPTS - attempt + 1,
    ensures
        run_delivery(attempt, outcomes).1 >= 1,
        run_delivery(attempt, outcomes).1 <= WEBHOOK_MAX_ATTEMPTS - attempt + 1,
        !(run_delivery(attempt, outcomes).0 is RetryAfterMs),
        (run_delivery(attempt, outcomes).0 == WebhookStep::Delivered) <==> exists|i: int|
            0 <= i < run_delivery(attempt, outcomes).1 && (#[trigger] outcomes[i] matches AttemptOutcome::Status(s) && 200 <= s <= 299),
    decreases WEBHOOK_MAX_ATTEMPTS - attempt,
{
    let step = next_step_spec(attempt, outcomes[0]);
    if step is RetryAfterMs {
        lemma_delivery_bounded(outcomes.drop_first(), (attempt + 1) as u32);
        let n = run_delivery(attempt, outcomes).1;
        let rest = outcomes.drop_first();
        if run_delivery(attempt, outcomes).0 == WebhookStep::Delivered {
            let i = choose|i: int| 0 <= i < n - 1 && (#[trigger] rest[i] matches AttemptOutcome::Status(s) && 200 <= s <= 299);
            assert(outcomes[i + 1] == rest[i]);
        }
        assert forall|i: int| 0 <= i < n && (#[trigger] outcomes[i] matches AttemptOutcome::Status(s) && 200 <= s <= 299)
            implies run_delivery(attempt, outcomes).0 == WebhookStep::Delivered by {
            if i > 0 {
                assert(rest[i - 1] == outcomes[i]);
            }
        }
    } else {
        if step == WebhookStep::Delivered {
            assert(outcomes[0] matches AttemptOutcome::Status(s) && 200 <= s <= 299);
        }
    }
}

} // verus!
