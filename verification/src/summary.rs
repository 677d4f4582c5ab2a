//! Readiness gate of the daily / weekly / monthly summary poster.
//!
//! A summary covers the last closed UTC period. It is never posted twice,
//! never before `period close + settle`, and only once the rollup is fully
//! priced, not behind the bot's own ingested count and stable across two
//! polls; past `period close + max_defer` it is posted anyway with an
//! "incomplete" marker.

use vstd::prelude::*;

use crate::calendar::{
    closed_period_window, closed_window, midnight_of, midnight_timestamp, window_defined, window_shape,
    MAX_DELTA_SECS, MAX_TIMESTAMP, MIN_DAY,
};
use crate::explorer::Cadence;
use crate::text::str_equal;

verus! {

/// Gating thresholds, in seconds, that keep the summary poster from
/// publishing a rollup before the explorer has finished indexing, enriching
/// and deriving the period's data.
#[derive(Debug, Clone)]
pub struct SummaryReadiness {
    pub settle_daily_secs: u64,
    pub settle_weekly_secs: u64,
    pub settle_monthly_secs: u64,
    pub max_defer_secs: u64,
}

/// The settle time that applies to `cadence`.
pub fn settle_for(readiness: &SummaryReadiness, cadence: Cadence) -> (r: u64)
    ensures
        r == match cadence {
            Cadence::Daily => readiness.settle_daily_secs,
            Cadence::Weekly => readiness.settle_weekly_secs,
            Cadence::Monthly => readiness.settle_monthly_secs,
        },
{
    match cadence {
        Cadence::Daily => readiness.settle_daily_secs,
        Cadence::Weekly => readiness.settle_weekly_secs,
        Cadence::Monthly => readiness.settle_monthly_secs,
    }
}

/// The last closed period for `cadence` as seen on day `today`:
/// `(period_date, range_from, range_to)`, where the period is keyed by its
/// first day.
pub fn last_closed_period(cadence: Cadence, today: i32) -> (r: (i32, i32, i32))
    requires
        window_defined(cadence, today as int),
    ensures
        r.0 == r.1,
        (r.1 as int, r.2 as int) == closed_window(cadence, today as int),
        window_shape(cadence, today as int, r.1 as int, r.2 as int),
{
    let (from, to) = closed_period_window(cadence, today);
    (from, from, to)
}

/// The instant a period that ends on day `range_to` closes: the following
/// midnight.
pub fn period_close(range_to: i32) -> (r: i64)
    requires
        MIN_DAY <= range_to < crate::calendar::MAX_DAY,
    ensures
        r == midnight_of(range_to + 1),
{
    midnight_timestamp(range_to + 1)
}

/// First step of one poll for one cadence.
#[derive(Debug, Clone, Copy, PartialEq, Eq, Structural)]
pub enum SummaryGate {
    /// The period already has a watermark.
    AlreadyPosted,
    /// The settle time does not fit chrono's `TimeDelta`: the poll fails.
    SettleOutOfRange,
    /// Not yet `period close + settle`.
    Settling,
    /// Fetch the explorer's rollup and judge it.
    Fetch,
}

/// chrono panics when `close + secs` leaves its range; these inputs are
/// outside what the poster handles.
pub open spec fn offset_in_range(close: int, secs: int) -> bool {
    secs <= MAX_DELTA_SECS ==> close + secs <= MAX_TIMESTAMP
}

pub open spec fn gate_spec(posted: bool, now: int, close: int, settle_secs: int) -> SummaryGate {
    if posted {
        SummaryGate::AlreadyPosted
    } else if settle_secs > MAX_DELTA_SECS {
        SummaryGate::SettleOutOfRange
    } else if now < close + settle_secs {
        SummaryGate::Settling
    } else {
        SummaryGate::Fetch
    }
}

/// Decide whether this poll should fetch the period's rollup.
pub fn summary_gate(posted: bool, now: i64, close: i64, settle_secs: u64) -> (g: SummaryGate)
    requires
        !posted ==> offset_in_range(close as int, settle_secs as int),
    ensures
        g == gate_spec(posted, now as int, close as int, settle_secs as int),
        posted ==> g == SummaryGate::AlreadyPosted,
        g == SummaryGate::Fetch ==> !posted && now >= close + settle_secs,
{
    if posted {
        return SummaryGate::AlreadyPosted;
    }
    if settle_secs > MAX_DELTA_SECS as u64 {
        return SummaryGate::SettleOutOfRange;
    }
    let eligible_at = close + settle_secs as i64;
    if now < eligible_at {
        SummaryGate::Settling
    } else {
        SummaryGate::Fetch
    }
}

/// For a period without a watermark, the poll errs only when the settle
/// time is more than `i64::MAX` milliseconds (chrono's `TimeDelta` limit);
/// below that it waits until `close + settle_secs` and fetches from then
/// on. A period with a watermark is skipped at any time.
pub proof fn gate_waits_for_settle_then_fetches(posted: bool, now: int, close: int, settle_secs: int)
    ensures
        MAX_DELTA_SECS == i64::MAX / 1000,
        posted ==> gate_spec(posted, now, close, settle_secs) == SummaryGate::AlreadyPosted,
        !posted ==> (gate_spec(posted, now, close, settle_secs) == SummaryGate::SettleOutOfRange
            <==> settle_secs > i64::MAX / 1000),
        !posted && settle_secs <= i64::MAX / 1000 && now >= close + settle_secs ==> gate_spec(
            posted,
            now,
            close,
            settle_secs,
        ) == SummaryGate::Fetch,
        !posted && settle_secs <= i64::MAX / 1000 && now < close + settle_secs ==> gate_spec(
            posted,
            now,
            close,
            settle_secs,
        ) == SummaryGate::Settling,
{
}

/// What to do with a fetched rollup.
#[derive(Debug, Clone, Copy, PartialEq, Eq, Structural)]
pub enum SummaryAction {
    /// The max-defer time does not fit chrono's `TimeDelta`: the poll fails.
    MaxDeferOutOfRange,
    /// The rollup is ready: post the summary.
    Post,
    /// Not ready and not yet past the deadline: record the snapshot, wait.
    Defer,
    /// Not ready but past the deadline: record the snapshot and post with
    /// the "incomplete" marker.
    PostIncomplete,
}

/// The verdict on a fetched rollup, with the three readiness signals it was
/// judged on.
#[derive(Debug, Clone, Copy)]
pub struct SummaryVerdict {
    pub action: SummaryAction,
    /// Every counted ticket carries a USD valuation.
    pub enrichment_ok: bool,
    /// The explorer counts at least as many tickets as the bot ingested.
    pub crosscheck_ok: bool,
    /// The figures are the same as at the previous poll.
    pub stable: bool,
}

/// A rollup is ready when it is fully priced, not behind the bot's own
/// ingested count, and unchanged since the previous poll.
pub open spec fn rollup_ready(ticket_count: int, priced: int, local_count: int, stable: bool) -> bool {
    priced >= ticket_count && ticket_count >= local_count && stable
}

pub open spec fn action_spec(
    ticket_count: int,
    priced: int,
    local_count: int,
    stable: bool,
    now: int,
    close: int,
    max_defer_secs: int,
) -> SummaryAction {
    if max_defer_secs > MAX_DELTA_SECS {
        SummaryAction::MaxDeferOutOfRange
    } else if rollup_ready(ticket_count, priced, local_count, stable) {
        SummaryAction::Post
    } else if now < close + max_defer_secs {
        SummaryAction::Defer
    } else {
        SummaryAction::PostIncomplete
    }
}

/// Judge a fetched rollup: it is posted when ready, deferred while not ready
/// and before the max-defer deadline, and posted as incomplete after it.
pub fn summary_verdict(
    ticket_count: i64,
    priced: i64,
    local_count: i64,
    stable: bool,
    now: i64,
    close: i64,
    max_defer_secs: u64,
) -> (v: SummaryVerdict)
    requires
        offset_in_range(close as int, max_defer_secs as int),
    ensures
        v.action == action_spec(
            ticket_count as int,
            priced as int,
            local_count as int,
            stable,
            now as int,
            close as int,
            max_defer_secs as int,
        ),
        v.enrichment_ok == (priced >= ticket_count),
        v.crosscheck_ok == (ticket_count >= local_count),
        v.stable == stable,
{
    let enrichment_ok = priced >= ticket_count;
    let crosscheck_ok = ticket_count >= local_count;
    if max_defer_secs > MAX_DELTA_SECS as u64 {
        return SummaryVerdict {
            action: SummaryAction::MaxDeferOutOfRange,
            enrichment_ok,
            crosscheck_ok,
            stable,
        };
    }
    let ready = enrichment_ok && crosscheck_ok && stable;
    let past_deadline = now >= close + max_defer_secs as i64;
    let action = if ready {
        SummaryAction::Post
    } else if !past_deadline {
        SummaryAction::Defer
    } else {
        SummaryAction::PostIncomplete
    };
    SummaryVerdict { action, enrichment_ok, crosscheck_ok, stable }
}

/// A summary is posted complete only when the rollup is ready, posted as
/// incomplete only when not ready and past the max-defer deadline, and
/// deferred only before that deadline.
pub proof fn summary_posts_only_when_ready_or_overdue(
    ticket_count: int,
    priced: int,
    local_count: int,
    stable: bool,
    now: int,
    close: int,
    max_defer_secs: int,
)
    ensures
        action_spec(ticket_count, priced, local_count, stable, now, close, max_defer_secs)
            == SummaryAction::Post ==> priced >= ticket_count && ticket_count >= local_count
            && stable,
        action_spec(ticket_count, priced, local_count, stable, now, close, max_defer_secs)
            == SummaryAction::PostIncomplete ==> !rollup_ready(ticket_count, priced, local_count, stable)
            && now >= close + max_defer_secs,
        action_spec(ticket_count, priced, local_count, stable, now, close, max_defer_secs)
            == SummaryAction::Defer ==> !rollup_ready(ticket_count, priced, local_count, stable)
            && now < close + max_defer_secs,
{
}

/// Snapshot of a payout-summary rollup as last observed from the explorer.
/// Two consecutive snapshots with identical figures mean the rollup has
/// stabilised.
#[derive(Debug, Clone)]
pub struct SummarySnapshot {
    pub ticket_count: String,
    pub usd_rows_priced: String,
    pub sum_face_value_native: String,
    pub sum_commission_native: String,
}

impl SummarySnapshot {
    pub open spec fn same_as(self, other: SummarySnapshot) -> bool {
        &&& self.ticket_count@ == other.ticket_count@
        &&& self.usd_rows_priced@ == other.usd_rows_priced@
        &&& self.sum_face_value_native@ == other.sum_face_value_native@
        &&& self.sum_commission_native@ == other.sum_commission_native@
    }

    /// Whether both snapshots hold the same four figures.
    pub fn same_figures(&self, other: &SummarySnapshot) -> (b: bool)
        ensures
            b == self.same_as(*other),
    {
        str_equal(self.ticket_count.as_str(), other.ticket_count.as_str()) && str_equal(
            self.usd_rows_priced.as_str(),
            other.usd_rows_priced.as_str(),
        ) && str_equal(self.sum_face_value_native.as_str(), other.sum_face_value_native.as_str())
            && str_equal(self.sum_commission_native.as_str(), other.sum_commission_native.as_str())
    }
}

/// The rollup is stable when the previous poll recorded the same figures.
pub fn snapshot_stable(prior: &Option<SummarySnapshot>, current: &SummarySnapshot) -> (b: bool)
    ensures
        b == (prior matches Some(p) && p.same_as(*current)),
{
    match prior {
        Some(p) => p.same_figures(current),
        None => false,
    }
}

} // verus!
