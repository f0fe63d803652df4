use sentinel::alert::webhook::{
    format_alert_message, is_discord_webhook, is_retryable_error, is_retryable_status,
    is_slack_webhook, next_step, redact_webhook_url, retry_delay, AttemptOutcome,
    WebhookRequestBody, WebhookStep, WEBHOOK_MAX_ATTEMPTS,
};
use sentinel::alert::{Alert, AlertType};
use sentinel::config::WebhookUrl;

fn sample_alert() -> Alert {
    Alert {
        alert_type: AlertType::Cpu,
        threshold: 90,
        consecutive_readings: 3,
        timestamp: "2026-04-28T00:00:00Z".to_string(),
        message: None,
    }
}

/// The reading of the sample alert, rendered as the dispatcher renders it.
fn sample_value() -> String {
    format!("{:.1}", 97.5f32)
}

fn url(text: &str) -> WebhookUrl {
    WebhookUrl::parse(text).expect("URL should be valid")
}

#[test]
fn builds_slack_compatible_payload_for_slack_webhooks() {
    let url = url("https://hooks.slack.com/services/T000/B000/secret");

    let payload = WebhookRequestBody::from_alert(&url, &sample_alert(), &sample_value());

    match payload {
        WebhookRequestBody::Slack { text } => assert_eq!(
            text,
            "Sentinel alert: CPU at 97.5% exceeded 90.0% for 3 consecutive readings at 2026-04-28T00:00:00Z."
        ),
        _ => panic!("a Slack URL should get a Slack payload"),
    }
}

#[test]
fn builds_discord_compatible_payload_for_discord_webhooks() {
    let url = url("https://discord.com/api/webhooks/123/secret");

    let payload = WebhookRequestBody::from_alert(&url, &sample_alert(), &sample_value());

    match payload {
        WebhookRequestBody::Discord { content } => assert_eq!(
            content,
            "Sentinel alert: CPU at 97.5% exceeded 90.0% for 3 consecutive readings at 2026-04-28T00:00:00Z."
        ),
        _ => panic!("a Discord URL should get a Discord payload"),
    }
}

#[test]
fn keeps_structured_payload_for_generic_webhooks() {
    let url = url("https://example.com/hooks/sentinel");

    let payload = WebhookRequestBody::from_alert(&url, &sample_alert(), &sample_value());

    match payload {
        WebhookRequestBody::Generic(alert) => {
            assert_eq!(alert.alert_type, AlertType::Cpu);
            assert_eq!(alert.threshold, 90);
            assert_eq!(alert.consecutive_readings, 3);
            assert_eq!(alert.timestamp, "2026-04-28T00:00:00Z");
            assert_eq!(alert.message, None);
        }
        _ => panic!("a generic URL should get the structured alert"),
    }
}

#[test]
fn redacts_secret_segments_from_logged_webhook_urls() {
    let url = url("https://discord.com/api/webhooks/123/very-secret-token");

    let redacted = redact_webhook_url(&url);

    assert_eq!(redacted, "https://discord.com/...");
    assert!(
        !redacted.contains("very-secret-token"),
        "redacted URL must not expose secret path segments"
    );
}

#[test]
fn redaction_keeps_an_explicit_port() {
    assert_eq!(
        redact_webhook_url(&url("http://127.0.0.1:1/discord/very-secret-token")),
        "http://127.0.0.1:1/..."
    );
    assert_eq!(
        redact_webhook_url(&url("mailto:alerts@example.com")),
        "<redacted-webhook-url>"
    );
}

#[test]
fn recognises_slack_and_discord_hosts() {
    assert!(is_slack_webhook(&url("https://hooks.slack.com/services/x")));
    assert!(!is_slack_webhook(&url("https://slack.com/services/x")));
    assert!(is_discord_webhook(&url("https://discordapp.com/api/webhooks/1/t")));
    assert!(!is_discord_webhook(&url("https://discord.com/api/other/1/t")));
    assert!(!is_discord_webhook(&url("https://example.com/api/webhooks/1/t")));
}

#[test]
fn formats_ram_and_collector_messages() {
    let ram = Alert {
        alert_type: AlertType::Ram,
        threshold: 85,
        consecutive_readings: 4,
        timestamp: "T".to_string(),
        message: None,
    };
    assert_eq!(
        format_alert_message(&ram, "86.2"),
        "Sentinel alert: RAM at 86.2% exceeded 85.0% for 4 consecutive readings at T."
    );

    let collector = Alert {
        alert_type: AlertType::Collector,
        threshold: 1,
        consecutive_readings: 1,
        timestamp: "T".to_string(),
        message: None,
    };
    assert_eq!(
        format_alert_message(&collector, ""),
        "Sentinel alert: collector failed 1 time(s) as of T. system metric collection failed"
    );
}

#[test]
fn classifies_statuses_and_transport_failures() {
    assert!(is_retryable_status(429));
    assert!(is_retryable_status(500));
    assert!(is_retryable_status(503));
    assert!(is_retryable_status(599));
    assert!(!is_retryable_status(404));
    assert!(!is_retryable_status(600));
    assert!(!is_retryable_status(204));

    assert!(is_retryable_error(true, false, false));
    assert!(is_retryable_error(false, true, false));
    assert!(is_retryable_error(false, false, true));
    assert!(!is_retryable_error(false, false, false));
}

#[test]
fn retry_delay_backs_off_exponentially() {
    assert_eq!(retry_delay(1), 250);
    assert_eq!(retry_delay(2), 500);
    assert_eq!(retry_delay(3), 1000);
    assert_eq!(retry_delay(4), 2000);
    assert_eq!(retry_delay(0), 0);
    assert_eq!(retry_delay(57), 250 << 56);
    assert_eq!(retry_delay(58), u64::MAX);
    assert_eq!(retry_delay(usize::MAX), u64::MAX);
    for attempt in 1..57 {
        assert_eq!(retry_delay(attempt + 1), 2 * retry_delay(attempt));
    }
}

#[test]
fn retries_transient_status_failures_until_success() {
    let outcomes = [
        AttemptOutcome::Status(503),
        AttemptOutcome::Status(429),
        AttemptOutcome::Status(204),
    ];
    let mut steps = Vec::new();
    for (i, outcome) in outcomes.iter().enumerate() {
        steps.push(next_step(i as u32 + 1, *outcome));
    }

    assert_eq!(
        steps,
        vec![
            WebhookStep::RetryAfterMs(250),
            WebhookStep::RetryAfterMs(500),
            WebhookStep::Delivered
        ]
    );
}

#[test]
fn gives_up_after_the_last_attempt_or_a_terminal_failure() {
    assert_eq!(
        next_step(WEBHOOK_MAX_ATTEMPTS, AttemptOutcome::Status(503)),
        WebhookStep::FailedStatus(503)
    );
    assert_eq!(
        next_step(1, AttemptOutcome::Status(500)),
        WebhookStep::RetryAfterMs(250)
    );
    assert_eq!(
        next_step(1, AttemptOutcome::Status(404)),
        WebhookStep::FailedStatus(404)
    );
    assert_eq!(
        next_step(1, AttemptOutcome::TransportError { retryable: false }),
        WebhookStep::FailedTransport
    );
    assert_eq!(
        next_step(2, AttemptOutcome::TransportError { retryable: true }),
        WebhookStep::RetryAfterMs(500)
    );
    assert_eq!(
        next_step(3, AttemptOutcome::TransportError { retryable: true }),
        WebhookStep::FailedTransport
    );
}
