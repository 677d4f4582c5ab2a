use livepeer_payout_bot::reward_watch::{
    delinquent_positions, digest_due, digest_next, DigestCommand, DigestProgress, ladder_alert_pending, ladder_step, missed_alert_pending,
    missed_pass_round, prune_before_round, round_cursor, RewardedSet, RewardWatchSettings,
};

#[test]
fn missed_pass_reconciles_the_previous_round_once() {
    // First deploy: no cursor, nothing to reconcile.
    assert_eq!(missed_pass_round(100, None), None);
    assert_eq!(missed_pass_round(100, Some("not a round".to_string())), None);
    // The cursor lags: reconcile round 99.
    assert_eq!(missed_pass_round(100, Some("98".to_string())), Some(99));
    // After storing the cursor the pass does not repeat.
    let cursor = round_cursor(99);
    assert_eq!(cursor, "99");
    assert_eq!(missed_pass_round(100, Some(cursor)), None);
    assert_eq!(prune_before_round(100), 92);
}

#[test]
fn digest_is_posted_once_per_round() {
    assert!(digest_due(3000, None));
    assert!(digest_due(3000, Some("2999".to_string())));
    assert!(!digest_due(3000, Some(round_cursor(3000))));
    assert!(!digest_due(-5, None));
    assert_eq!(round_cursor(-7), "-7");
}

#[test]
fn digest_run_lists_sends_then_records_the_round() {
    let begin = |c: Option<&str>| DigestProgress::Begin { cursor: c.map(str::to_string) };
    assert_eq!(digest_next(3000, begin(Some("2999"))), DigestCommand::List);
    assert_eq!(digest_next(3000, begin(None)), DigestCommand::List);
    assert_eq!(digest_next(3000, begin(Some("3000"))), DigestCommand::Stop);
    assert_eq!(digest_next(3000, begin(Some("3001"))), DigestCommand::Stop);
    assert_eq!(digest_next(3000, DigestProgress::Listed { found: 4 }), DigestCommand::Send);
    let record = DigestCommand::Record { cursor: "3000".to_string() };
    assert_eq!(digest_next(3000, DigestProgress::Listed { found: 0 }), record);
    assert_eq!(digest_next(3000, DigestProgress::Sent), record);
    // The recorded round stops the next run of the same round.
    assert_eq!(digest_next(3000, begin(Some("3000"))), DigestCommand::Stop);
}

#[test]
fn rewarded_addresses_compare_lower_case() {
    let mut set = RewardedSet::new();
    assert!(!set.contains_orch("0xAbC"));
    set.add_page(&vec![Some("0xABC".to_string()), None, Some("0xdef".to_string())]);
    assert!(set.contains_orch("0xabc"));
    assert!(set.contains_orch("0xDEF"));
    assert!(!set.contains_orch("0x123"));
}

#[test]
fn ladder_alerts_once_per_rung() {
    assert!(!ladder_alert_pending(false, 0, 0));
    assert!(ladder_alert_pending(false, 2, 1));
    assert!(!ladder_alert_pending(true, 2, 1));
    assert!(!ladder_alert_pending(false, 2, 2));
    let step = ladder_step(true, true, 2);
    assert!(step.send);
    assert_eq!(step.record, Some(2));
    let quiet = ladder_step(true, false, 2);
    assert!(!quiet.send);
    assert_eq!(quiet.record, Some(2));
    let inactive = ladder_step(false, true, 2);
    assert!(!inactive.send);
    assert_eq!(inactive.record, None);
    assert!(missed_alert_pending(false, false));
    assert!(!missed_alert_pending(true, false));
    assert!(!missed_alert_pending(false, true));
}

#[test]
fn delinquents_are_active_and_unrewarded() {
    let mut rewarded = RewardedSet::new();
    rewarded.add_page(&vec![Some("0xb".to_string())]);
    let addresses = vec!["0xA".to_string(), "0xB".to_string(), "0xc".to_string(), "0xd".to_string()];
    let active = vec![true, true, false, true];
    assert_eq!(delinquent_positions(&addresses, &active, &rewarded), vec![0, 3]);
}

#[test]
fn watch_settings_hold_their_values() {
    let s = RewardWatchSettings {
        poll_interval_secs: 60,
        first_alert_pct: 25,
        realert_step_pct: 10,
        digest_pct: 90,
        round_length_blocks: 6377,
        post_digest: true,
        failure_threshold: 3,
    };
    assert_eq!(s.digest_pct, 90);
    assert_eq!(s.round_length_blocks, 6377);
}
