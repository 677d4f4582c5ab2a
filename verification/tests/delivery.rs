use livepeer_payout_bot::delivery::{
    bucket_exhausted, classify_dm_failure, fan_out_delivered, dm_follow_up, dm_recipient, give_up_message,
    rate_limit_is_global, should_auto_unsubscribe, should_flag_blocked, webhook_failure_message,
    server_error_backoff, webhook_step, DmError, DmFollowUp, WebhookStep,
};

#[test]
fn dm_errors_are_classified_by_status() {
    let closed = classify_dm_failure(Some(403), 50007, "forbidden".to_string());
    assert!(matches!(closed, DmError::DmsClosed { code: Some(50007) }));
    assert_eq!(
        closed.to_string(),
        "recipient has DMs closed or blocked the bot (discord code Some(50007))"
    );
    let limited = classify_dm_failure(Some(429), 0, "slow down".to_string());
    assert!(matches!(limited, DmError::RateLimited));
    assert_eq!(limited.to_string(), "rate limited");
    let other = classify_dm_failure(None, 0, "connection reset".to_string());
    assert_eq!(other.to_string(), "send failed: connection reset");
    let server = classify_dm_failure(Some(500), 0, "boom".to_string());
    assert!(matches!(server, DmError::Other(_)));
    let unknown = DmError::DmsClosed { code: None };
    assert_eq!(
        unknown.to_string(),
        "recipient has DMs closed or blocked the bot (discord code None)"
    );
}

#[test]
fn only_closed_dms_count_toward_blocking() {
    assert_eq!(dm_follow_up(&Ok(())), DmFollowUp::ClearFailures);
    assert_eq!(dm_follow_up(&Err(DmError::DmsClosed { code: Some(50007) })), DmFollowUp::CountRefusal);
    assert_eq!(dm_follow_up(&Err(DmError::RateLimited)), DmFollowUp::Ignore);
    assert_eq!(dm_follow_up(&Err(DmError::Other("x".to_string()))), DmFollowUp::Ignore);
}

#[test]
fn subscriptions_are_flagged_at_the_threshold() {
    assert!(!should_flag_blocked(2, 3, false));
    assert!(should_flag_blocked(3, 3, false));
    assert!(!should_flag_blocked(4, 3, true));
    assert!(!should_auto_unsubscribe(2, 3));
    assert!(should_auto_unsubscribe(3, 3));
}

#[test]
fn recipient_ids_must_be_numeric() {
    assert_eq!(dm_recipient("123456789012345678"), Some(123456789012345678));
    assert_eq!(dm_recipient("abc"), None);
    assert_eq!(dm_recipient(""), None);
    assert_eq!(dm_recipient("99999999999999999999"), None);
}

#[test]
fn server_error_backoff_doubles_up_to_thirty_seconds() {
    let waits: Vec<u64> = (1..=8).map(server_error_backoff).collect();
    assert_eq!(waits, vec![1, 2, 4, 8, 16, 30, 30, 30]);
    assert_eq!(server_error_backoff(u32::MAX), 30);
}

#[test]
fn webhook_retries_rate_limits_and_server_errors_at_most_three_times() {
    assert_eq!(webhook_step(204, 1), WebhookStep::Delivered);
    assert_eq!(webhook_step(429, 1), WebhookStep::Retry);
    assert_eq!(webhook_step(429, 2), WebhookStep::Retry);
    assert_eq!(webhook_step(429, 3), WebhookStep::GiveUp);
    assert_eq!(webhook_step(500, 1), WebhookStep::Backoff { wait_secs: 1 });
    assert_eq!(webhook_step(502, 2), WebhookStep::Backoff { wait_secs: 2 });
    assert_eq!(webhook_step(503, 3), WebhookStep::Fail);
    assert_eq!(webhook_step(404, 1), WebhookStep::Fail);
    assert_eq!(give_up_message(true), "discord 429 after 3 attempts (global=true)");
    assert_eq!(
        webhook_failure_message("404 Not Found", "{}"),
        "discord webhook failed: status=404 Not Found body={}"
    );
}

#[test]
fn rate_limit_signals() {
    assert!(bucket_exhausted(Some(0)));
    assert!(bucket_exhausted(Some(-1)));
    assert!(!bucket_exhausted(Some(1)));
    assert!(!bucket_exhausted(None));
    assert!(rate_limit_is_global(Some("global"), false));
    assert!(rate_limit_is_global(None, true));
    assert!(!rate_limit_is_global(Some("user"), false));
}

#[test]
fn fan_out_succeeds_when_any_webhook_accepts() {
    assert!(fan_out_delivered(&vec![false, true, false]));
    assert!(!fan_out_delivered(&vec![false, false]));
    assert!(!fan_out_delivered(&vec![]));
}
