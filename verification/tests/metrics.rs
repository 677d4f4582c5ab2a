use livepeer_payout_bot::explorer::Cadence;
use livepeer_payout_bot::metrics::{idx, render, Metrics};

#[test]
fn cadence_positions() {
    assert_eq!(idx(Cadence::Daily), 0);
    assert_eq!(idx(Cadence::Weekly), 1);
    assert_eq!(idx(Cadence::Monthly), 2);
}

#[test]
fn exposition_reports_every_counter() {
    let mut m = Metrics::new();
    m.record_post(Cadence::Daily);
    m.record_post(Cadence::Daily);
    m.record_deferral(Cadence::Monthly);
    m.record_reward_watch_alert();
    m.record_reward_watch_missed();
    m.record_reward_watch_missed();
    m.record_reward_watch_digest();
    let text = render(&m, [1_700_000_000, 0, 42]);
    let lines: Vec<&str> = text.lines().collect();
    assert_eq!(lines[0], "# HELP livepeer_bot_start_timestamp Unix time the bot process started");
    assert_eq!(lines[1], "# TYPE livepeer_bot_start_timestamp gauge");
    assert!(lines[2].starts_with("livepeer_bot_start_timestamp "));
    let rest = lines[3..].join("\n");
    let expected = "# HELP livepeer_bot_digest_last_posted_timestamp Unix time of the most recent posted digest per cadence (from DB)
# TYPE livepeer_bot_digest_last_posted_timestamp gauge
livepeer_bot_digest_last_posted_timestamp{cadence=\"daily\"} 1700000000
livepeer_bot_digest_last_posted_timestamp{cadence=\"weekly\"} 0
livepeer_bot_digest_last_posted_timestamp{cadence=\"monthly\"} 42
# HELP livepeer_bot_digest_posts_total Digests posted since process start
# TYPE livepeer_bot_digest_posts_total counter
livepeer_bot_digest_posts_total{cadence=\"daily\"} 2
livepeer_bot_digest_posts_total{cadence=\"weekly\"} 0
livepeer_bot_digest_posts_total{cadence=\"monthly\"} 0
# HELP livepeer_bot_digest_deferrals_total Digest polls that deferred since process start
# TYPE livepeer_bot_digest_deferrals_total counter
livepeer_bot_digest_deferrals_total{cadence=\"daily\"} 0
livepeer_bot_digest_deferrals_total{cadence=\"weekly\"} 0
livepeer_bot_digest_deferrals_total{cadence=\"monthly\"} 1
# HELP livepeer_bot_reward_watch_alerts_total Reward-call pending DM fan-outs since process start
# TYPE livepeer_bot_reward_watch_alerts_total counter
livepeer_bot_reward_watch_alerts_total 1
# HELP livepeer_bot_reward_watch_missed_total Missed-reward DM fan-outs since process start
# TYPE livepeer_bot_reward_watch_missed_total counter
livepeer_bot_reward_watch_missed_total 2
# HELP livepeer_bot_reward_watch_digests_total Delinquency digests posted since process start
# TYPE livepeer_bot_reward_watch_digests_total counter
livepeer_bot_reward_watch_digests_total 1";
    assert_eq!(rest, expected);
    assert!(text.ends_with("livepeer_bot_reward_watch_digests_total 1\n"));
}

#[test]
fn default_counters_start_at_zero() {
    let m = Metrics::default();
    let text = render(&m, [0, 0, 0]);
    assert!(text.contains("livepeer_bot_digest_posts_total{cadence=\"weekly\"} 0\n"));
    assert!(text.contains("livepeer_bot_reward_watch_alerts_total 0\n"));
}

#[test]
fn start_timestamp_is_the_given_instant() {
    let m = Metrics::started_at(1_234);
    let text = render(&m, [0, 0, 0]);
    assert_eq!(text.lines().nth(2), Some("livepeer_bot_start_timestamp 1234"));
}

#[test]
fn clock_before_the_epoch_starts_at_zero() {
    let m = Metrics::from_clock(None);
    assert_eq!(render(&m, [0, 0, 0]).lines().nth(2), Some("livepeer_bot_start_timestamp 0"));
    let m = Metrics::from_clock(Some(1_700_000_000));
    assert_eq!(render(&m, [0, 0, 0]).lines().nth(2), Some("livepeer_bot_start_timestamp 1700000000"));
}

#[test]
fn new_metrics_start_at_the_clock() {
    let secs = || std::time::SystemTime::now().duration_since(std::time::UNIX_EPOCH).unwrap().as_secs();
    let before = secs();
    let m = Metrics::new();
    let after = secs();
    let text = render(&m, [0, 0, 0]);
    let started: u64 = text.lines().nth(2).unwrap().rsplit(' ').next().unwrap().parse().unwrap();
    assert!(before <= started && started <= after);
}
