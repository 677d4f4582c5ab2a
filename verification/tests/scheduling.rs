use chrono::{Datelike, NaiveDate, TimeZone, Utc};
use livepeer_payout_bot::calendar::{
    closed_period_window, closed_period_window_checked, midnight_timestamp, next_boundary, MIN_DAY, MIN_TIMESTAMP,
};
use livepeer_payout_bot::commands::{period_window, PeriodChoice};
use livepeer_payout_bot::digest::{plan_digest, DigestTicket};
use livepeer_payout_bot::explorer::Cadence;
use livepeer_payout_bot::summary::{
    last_closed_period, period_close, settle_for, snapshot_stable, summary_gate, summary_verdict,
    SummaryAction, SummaryGate, SummaryReadiness, SummarySnapshot,
};

fn day(y: i32, m: u32, d: u32) -> i32 {
    NaiveDate::from_ymd_opt(y, m, d).unwrap().num_days_from_ce()
}

#[test]
fn aligns_to_next_wall_clock_boundary() {
    let now = Utc.with_ymd_and_hms(2026, 5, 15, 14, 7, 12).unwrap();
    let next = next_boundary(now.timestamp(), 15 * 60);
    assert_eq!(next, Utc.with_ymd_and_hms(2026, 5, 15, 14, 15, 0).unwrap().timestamp());

    let on_boundary = Utc.with_ymd_and_hms(2026, 5, 15, 14, 15, 0).unwrap();
    let next = next_boundary(on_boundary.timestamp(), 15 * 60);
    assert_eq!(next, Utc.with_ymd_and_hms(2026, 5, 15, 14, 30, 0).unwrap().timestamp());
}

#[test]
fn boundary_of_empty_window_is_now() {
    assert_eq!(next_boundary(1_000, 0), 1_000);
}

#[test]
fn windows_are_counted_from_midnight() {
    let late = Utc.with_ymd_and_hms(2026, 5, 15, 23, 50, 0).unwrap();
    let next = next_boundary(late.timestamp(), 7 * 60 * 60);
    assert_eq!(next, Utc.with_ymd_and_hms(2026, 5, 16, 4, 0, 0).unwrap().timestamp());
    let before_epoch = Utc.with_ymd_and_hms(1969, 12, 31, 23, 59, 59).unwrap();
    assert_eq!(next_boundary(before_epoch.timestamp(), 60), 0);
}

#[test]
fn closed_windows_for_each_cadence() {
    // Friday 2026-05-15.
    let today = day(2026, 5, 15);
    assert_eq!(closed_period_window(Cadence::Daily, today), (day(2026, 5, 14), day(2026, 5, 14)));
    assert_eq!(closed_period_window(Cadence::Weekly, today), (day(2026, 5, 4), day(2026, 5, 10)));
    assert_eq!(closed_period_window(Cadence::Monthly, today), (day(2026, 4, 1), day(2026, 4, 30)));
    // January reaches back into the previous year.
    assert_eq!(
        closed_period_window(Cadence::Monthly, day(2024, 1, 1)),
        (day(2023, 12, 1), day(2023, 12, 31))
    );
    // On a Monday the window is the week that just ended.
    assert_eq!(closed_period_window(Cadence::Weekly, day(2026, 5, 11)), (day(2026, 5, 4), day(2026, 5, 10)));
    assert_eq!(closed_period_window_checked(Cadence::Daily, day(2026, 3, 1)), Some((day(2026, 2, 28), day(2026, 2, 28))));
    assert_eq!(closed_period_window_checked(Cadence::Daily, i32::MAX), None);
}

#[test]
fn earliest_dates_are_chronos_own() {
    let first = NaiveDate::MIN.num_days_from_ce();
    assert_eq!(MIN_DAY, first);
    assert_eq!(MIN_TIMESTAMP, NaiveDate::MIN.and_hms_opt(0, 0, 0).unwrap().and_utc().timestamp());
    // No month closes before chrono's first month.
    for d in first..first + 31 {
        assert_eq!(closed_period_window_checked(Cadence::Monthly, d), None);
    }
    assert_eq!(closed_period_window_checked(Cadence::Monthly, first + 31), Some((first, first + 30)));
}

#[test]
fn period_choice_windows_and_labels() {
    let today = day(2026, 6, 10);
    assert_eq!(period_window(PeriodChoice::Daily, today), (day(2026, 6, 9), day(2026, 6, 9)));
    assert_eq!(period_window(PeriodChoice::Weekly, today), (day(2026, 6, 1), day(2026, 6, 7)));
    assert_eq!(period_window(PeriodChoice::Monthly, today), (day(2026, 5, 1), day(2026, 5, 31)));
    assert_eq!(PeriodChoice::Daily.label(), "Daily");
    assert_eq!(PeriodChoice::Weekly.label(), "Weekly");
    assert_eq!(PeriodChoice::Monthly.label(), "Monthly");
}

#[test]
fn summary_period_is_keyed_by_its_first_day() {
    let today = day(2026, 5, 15);
    assert_eq!(last_closed_period(Cadence::Weekly, today), (day(2026, 5, 4), day(2026, 5, 4), day(2026, 5, 10)));
    let close = period_close(day(2026, 5, 14));
    assert_eq!(close, Utc.with_ymd_and_hms(2026, 5, 15, 0, 0, 0).unwrap().timestamp());
    assert_eq!(midnight_timestamp(day(1970, 1, 1)), 0);
}

fn readiness() -> SummaryReadiness {
    SummaryReadiness {
        settle_daily_secs: 21600,
        settle_weekly_secs: 43200,
        settle_monthly_secs: 86400,
        max_defer_secs: 172800,
    }
}

#[test]
fn settle_time_follows_cadence() {
    let r = readiness();
    assert_eq!(settle_for(&r, Cadence::Daily), 21600);
    assert_eq!(settle_for(&r, Cadence::Weekly), 43200);
    assert_eq!(settle_for(&r, Cadence::Monthly), 86400);
}

#[test]
fn summary_waits_for_settlement() {
    let close = 1_000_000;
    assert_eq!(summary_gate(true, close + 99_999, close, 100), SummaryGate::AlreadyPosted);
    assert_eq!(summary_gate(false, close + 99, close, 100), SummaryGate::Settling);
    assert_eq!(summary_gate(false, close + 100, close, 100), SummaryGate::Fetch);
    assert_eq!(summary_gate(false, close, close, u64::MAX), SummaryGate::SettleOutOfRange);
}

#[test]
fn summary_posts_only_when_priced_caught_up_and_stable() {
    let close = 1_000_000;
    let ready = summary_verdict(10, 10, 10, true, close + 10, close, 100);
    assert_eq!(ready.action, SummaryAction::Post);
    assert!(ready.enrichment_ok && ready.crosscheck_ok && ready.stable);

    let behind = summary_verdict(10, 10, 12, true, close + 10, close, 100);
    assert_eq!(behind.action, SummaryAction::Defer);
    assert!(!behind.crosscheck_ok);

    let shifting = summary_verdict(10, 10, 0, false, close + 10, close, 100);
    assert_eq!(shifting.action, SummaryAction::Defer);
    assert!(!shifting.stable);

    let waiting = summary_verdict(10, 9, 0, true, close + 99, close, 100);
    assert_eq!(waiting.action, SummaryAction::Defer);
    assert!(!waiting.enrichment_ok);

    let late = summary_verdict(10, 10, 12, false, close + 100, close, 100);
    assert_eq!(late.action, SummaryAction::PostIncomplete);
}

#[test]
fn posted_period_is_skipped_whatever_the_settle_time() {
    assert_eq!(summary_gate(true, 0, i64::MAX, u64::MAX), SummaryGate::AlreadyPosted);
}

fn snap(count: &str) -> SummarySnapshot {
    SummarySnapshot {
        ticket_count: count.to_string(),
        usd_rows_priced: "3".to_string(),
        sum_face_value_native: "0.5".to_string(),
        sum_commission_native: "0.1".to_string(),
    }
}

#[test]
fn snapshots_are_stable_only_when_identical() {
    assert!(snapshot_stable(&Some(snap("3")), &snap("3")));
    assert!(!snapshot_stable(&Some(snap("4")), &snap("3")));
    assert!(!snapshot_stable(&None, &snap("3")));
}

fn ticket(orch: &str, ts: i64, ai: Option<bool>) -> DigestTicket {
    DigestTicket { orch_address: Some(orch.to_string()), block_timestamp: ts, gateway_is_ai: ai }
}

#[test]
fn digest_plan_orders_messages_by_latest_ticket() {
    let tickets = vec![
        ticket("0xorch-b", 300, Some(true)),
        ticket("0xorch-a", 100, Some(false)),
        ticket("0xorch-b", 200, Some(true)),
        ticket("0xorch-b", 250, Some(false)),
        DigestTicket { orch_address: None, block_timestamp: 50, gateway_is_ai: Some(true) },
        ticket("0xorch-c", 10, None),
    ];
    let jobs = plan_digest(&tickets);
    assert_eq!(jobs.len(), 3);
    assert_eq!(jobs[0].orch_address, "0xorch-a");
    assert!(jobs[0].single);
    assert_eq!(jobs[0].tickets, vec![1]);
    assert_eq!(jobs[1].orch_address, "0xorch-b");
    assert!(!jobs[1].is_ai);
    assert_eq!(jobs[1].latest_ts, 250);
    assert_eq!(jobs[1].tickets, vec![3]);
    assert_eq!(jobs[2].orch_address, "0xorch-b");
    assert!(jobs[2].is_ai);
    assert_eq!(jobs[2].latest_ts, 300);
    assert_eq!(jobs[2].tickets, vec![2, 0]);
}
