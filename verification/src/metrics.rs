//! Per-process counters and their Prometheus text exposition.

use vstd::prelude::*;
use vstd::string::*;
use crate::explorer::Cadence;
use crate::text::{decimal, u64_text};

verus! {

/// Position of a cadence in the per-cadence counters.
pub open spec fn cadence_index(c: Cadence) -> int {
    match c {
        Cadence::Daily => 0,
        Cadence::Weekly => 1,
        Cadence::Monthly => 2,
    }
}

/// Position of a cadence in the per-cadence counters.
pub fn idx(c: Cadence) -> (i: usize)
    ensures
        i == cadence_index(c),
{
    match c {
        Cadence::Daily => 0,
        Cadence::Weekly => 1,
        Cadence::Monthly => 2,
    }
}

/// Calls `SystemTime::now` and `duration_since(UNIX_EPOCH)`: whole seconds
/// since the Unix epoch by the system clock, `None` when the clock reads
/// before the epoch. What the clock reads is not stated.
#[verifier::external_body]
pub(crate) fn now_unix() -> Option<u64> {
    match std::time::SystemTime::now().duration_since(std::time::UNIX_EPOCH) {
        Ok(d) => Some(d.as_secs()),
        Err(_) => None,
    }
}

/// The start time recorded for a clock reading: the reading, or 0 when the
/// clock reads before the epoch.
pub open spec fn start_time(reading: Option<u64>) -> u64 {
    match reading {
        Some(secs) => secs,
        None => 0,
    }
}

/// A counter one step further, wrapping to zero past `u64::MAX`.
pub open spec fn bump(n: u64) -> u64 {
    if n == u64::MAX {
        0
    } else {
        (n + 1) as u64
    }
}

fn bumped(n: u64) -> (r: u64)
    ensures
        r == bump(n),
{
    n.wrapping_add(1)
}

/// Per-process counters. The time of the last post per cadence is kept in
/// the database, not here.
pub struct Metrics {
    posts_total: [u64; 3],
    deferrals_total: [u64; 3],
    reward_watch_alerts_total: u64,
    reward_watch_missed_total: u64,
    reward_watch_digests_total: u64,
    started_unix: u64,
}

impl Metrics {
    /// Summaries posted for `c`.
    pub closed spec fn posts(&self, c: Cadence) -> u64 {
        self.posts_total@[cadence_index(c)]
    }

    /// Polls that deferred `c`.
    pub closed spec fn deferrals(&self, c: Cadence) -> u64 {
        self.deferrals_total@[cadence_index(c)]
    }

    /// Ladder DM fan-outs.
    pub closed spec fn alerts(&self) -> u64 {
        self.reward_watch_alerts_total
    }

    /// Missed-reward DM fan-outs.
    pub closed spec fn missed(&self) -> u64 {
        self.reward_watch_missed_total
    }

    /// Delinquency digests posted.
    pub closed spec fn digests(&self) -> u64 {
        self.reward_watch_digests_total
    }

    /// When the process started.
    pub closed spec fn started(&self) -> u64 {
        self.started_unix
    }

    /// All counters at zero, started at `started_unix` (seconds since the
    /// Unix epoch).
    pub fn started_at(started_unix: u64) -> (m: Self)
        ensures
            forall|c: Cadence| #[trigger] m.posts(c) == 0 && m.deferrals(c) == 0,
            m.alerts() == 0,
            m.missed() == 0,
            m.digests() == 0,
            m.started() == started_unix,
    {
        Metrics {
            posts_total: [0, 0, 0],
            deferrals_total: [0, 0, 0],
            reward_watch_alerts_total: 0,
            reward_watch_missed_total: 0,
            reward_watch_digests_total: 0,
            started_unix,
        }
    }

    /// All counters at zero, started at the clock reading `reading`
    /// (seconds since the Unix epoch), or at 0 when the clock read before
    /// the epoch.
    pub fn from_clock(reading: Option<u64>) -> (m: Self)
        ensures
            forall|c: Cadence| #[trigger] m.posts(c) == 0 && m.deferrals(c) == 0,
            m.alerts() == 0,
            m.missed() == 0,
            m.digests() == 0,
            m.started() == start_time(reading),
    {
        let started_unix = match reading {
            Some(secs) => secs,
            None => 0,
        };
        Metrics::started_at(started_unix)
    }

    /// All counters at zero, started now: `from_clock` of the system clock's
    /// reading, which `now_unix` takes.
    pub fn new() -> (m: Self)
        ensures
            forall|c: Cadence| #[trigger] m.posts(c) == 0 && m.deferrals(c) == 0,
            m.alerts() == 0,
            m.missed() == 0,
            m.digests() == 0,
    {
        Metrics::from_clock(now_unix())
    }

    /// A summary was posted for `cadence`.
    pub fn record_post(&mut self, cadence: Cadence)
        ensures
            final(self).posts(cadence) == bump(old(self).posts(cadence)),
            forall|c: Cadence| c != cadence ==> #[trigger] final(self).posts(c) == old(self).posts(c),
            forall|c: Cadence| #[trigger] final(self).deferrals(c) == old(self).deferrals(c),
            final(self).alerts() == old(self).alerts(),
            final(self).missed() == old(self).missed(),
            final(self).digests() == old(self).digests(),
            final(self).started() == old(self).started(),
    {
        let i = idx(cadence);
        let v = bumped(self.posts_total[i]);
        self.posts_total[i] = v;
    }

    /// A poll evaluated `cadence` and deferred it.
    pub fn record_deferral(&mut self, cadence: Cadence)
        ensures
            final(self).deferrals(cadence) == bump(old(self).deferrals(cadence)),
            forall|c: Cadence| c != cadence ==> #[trigger] final(self).deferrals(c) == old(self).deferrals(c),
            forall|c: Cadence| #[trigger] final(self).posts(c) == old(self).posts(c),
            final(self).alerts() == old(self).alerts(),
            final(self).missed() == old(self).missed(),
            final(self).digests() == old(self).digests(),
            final(self).started() == old(self).started(),
    {
        let i = idx(cadence);
        let v = bumped(self.deferrals_total[i]);
        self.deferrals_total[i] = v;
    }

    /// A ladder DM fan-out went out for one orchestrator.
    pub fn record_reward_watch_alert(&mut self)
        ensures
            final(self).alerts() == bump(old(self).alerts()),
            forall|c: Cadence| #[trigger] final(self).posts(c) == old(self).posts(c),
            forall|c: Cadence| #[trigger] final(self).deferrals(c) == old(self).deferrals(c),
            final(self).missed() == old(self).missed(),
            final(self).digests() == old(self).digests(),
            final(self).started() == old(self).started(),
    {
        self.reward_watch_alerts_total = bumped(self.reward_watch_alerts_total);
    }

    /// A missed-reward DM fan-out went out for one orchestrator.
    pub fn record_reward_watch_missed(&mut self)
        ensures
            final(self).missed() == bump(old(self).missed()),
            forall|c: Cadence| #[trigger] final(self).posts(c) == old(self).posts(c),
            forall|c: Cadence| #[trigger] final(self).deferrals(c) == old(self).deferrals(c),
            final(self).alerts() == old(self).alerts(),
            final(self).digests() == old(self).digests(),
            final(self).started() == old(self).started(),
    {
        self.reward_watch_missed_total = bumped(self.reward_watch_missed_total);
    }

    /// The public delinquency digest was posted for a round.
    pub fn record_reward_watch_digest(&mut self)
        ensures
            final(self).digests() == bump(old(self).digests()),
            forall|c: Cadence| #[trigger] final(self).posts(c) == old(self).posts(c),
            forall|c: Cadence| #[trigger] final(self).deferrals(c) == old(self).deferrals(c),
            final(self).alerts() == old(self).alerts(),
            final(self).missed() == old(self).missed(),
            final(self).started() == old(self).started(),
    {
        self.reward_watch_digests_total = bumped(self.reward_watch_digests_total);
    }
}

impl Default for Metrics {
    fn default() -> (m: Self)
        ensures
            forall|c: Cadence| #[trigger] m.posts(c) == 0 && m.deferrals(c) == 0,
            m.alerts() == 0,
            m.missed() == 0,
            m.digests() == 0,
    {
        Metrics::new()
    }
}

/// One sample of a per-cadence metric.
pub open spec fn cadence_line(name: Seq<char>, c: Cadence, v: u64) -> Seq<char> {
    name + "{cadence=\""@ + c.path_text() + "\"} "@ + decimal(v as nat) + "\n"@
}

/// The three samples of a per-cadence metric, daily first.
pub open spec fn cadence_lines(name: Seq<char>, v: spec_fn(Cadence) -> u64) -> Seq<char> {
    cadence_line(name, Cadence::Daily, v(Cadence::Daily)) + cadence_line(
        name,
        Cadence::Weekly,
        v(Cadence::Weekly),
    ) + cadence_line(name, Cadence::Monthly, v(Cadence::Monthly))
}

/// One sample of a metric without labels.
pub open spec fn plain_line(name: Seq<char>, v: u64) -> Seq<char> {
    name + " "@ + decimal(v as nat) + "\n"@
}

/// The `# HELP` and `# TYPE` header of a metric.
pub open spec fn header(name: Seq<char>, help: Seq<char>, kind: Seq<char>) -> Seq<char> {
    "# HELP "@ + name + " "@ + help + "\n"@ + "# TYPE "@ + name + " "@ + kind + "\n"@
}

/// The Prometheus text exposition of `m`, with `last_posted` giving the
/// time of the last posted summary per cadence.
pub open spec fn exposition(m: Metrics, last_posted: spec_fn(Cadence) -> u64) -> Seq<char> {
    header("livepeer_bot_start_timestamp"@, "Unix time the bot process started"@, "gauge"@)
        + plain_line("livepeer_bot_start_timestamp"@, m.started())
        + header(
        "livepeer_bot_digest_last_posted_timestamp"@,
        "Unix time of the most recent posted digest per cadence (from DB)"@,
        "gauge"@,
    ) + cadence_lines("livepeer_bot_digest_last_posted_timestamp"@, last_posted) + header(
        "livepeer_bot_digest_posts_total"@,
        "Digests posted since process start"@,
        "counter"@,
    ) + cadence_lines("livepeer_bot_digest_posts_total"@, |c: Cadence| m.posts(c)) + header(
        "livepeer_bot_digest_deferrals_total"@,
        "Digest polls that deferred since process start"@,
        "counter"@,
    ) + cadence_lines("livepeer_bot_digest_deferrals_total"@, |c: Cadence| m.deferrals(c))
        + header(
        "livepeer_bot_reward_watch_alerts_total"@,
        "Reward-call pending DM fan-outs since process start"@,
        "counter"@,
    ) + plain_line("livepeer_bot_reward_watch_alerts_total"@, m.alerts()) + header(
        "livepeer_bot_reward_watch_missed_total"@,
        "Missed-reward DM fan-outs since process start"@,
        "counter"@,
    ) + plain_line("livepeer_bot_reward_watch_missed_total"@, m.missed()) + header(
        "livepeer_bot_reward_watch_digests_total"@,
        "Delinquency digests posted since process start"@,
        "counter"@,
    ) + plain_line("livepeer_bot_reward_watch_digests_total"@, m.digests())
}

fn push_header(out: &mut String, name: &str, help: &str, kind: &str)
    ensures
        final(out)@ == old(out)@ + header(name@, help@, kind@),
{
    let ghost start = out@;
    out.append("# HELP ");
    out.append(name);
    out.append(" ");
    out.append(help);
    out.append("\n");
    out.append("# TYPE ");
    out.append(name);
    out.append(" ");
    out.append(kind);
    out.append("\n");
    assert(out@ =~= start + header(name@, help@, kind@));
}

fn push_plain(out: &mut String, name: &str, v: u64)
    ensures
        final(out)@ == old(out)@ + plain_line(name@, v),
{
    let ghost start = out@;
    let digits = u64_text(v);
    out.append(name);
    out.append(" ");
    out.append(digits.as_str());
    out.append("\n");
    assert(out@ =~= start + plain_line(name@, v));
}

fn push_cadence(out: &mut String, name: &str, c: Cadence, v: u64)
    ensures
        final(out)@ == old(out)@ + cadence_line(name@, c, v),
{
    let ghost start = out@;
    let digits = u64_text(v);
    out.append(name);
    out.append("{cadence=\"");
    out.append(c.as_path());
    out.append("\"} ");
    out.append(digits.as_str());
    out.append("\n");
    assert(out@ =~= start + cadence_line(name@, c, v));
}

fn push_cadences(out: &mut String, name: &str, v: &[u64; 3])
    ensures
        final(out)@ == old(out)@ + cadence_lines(name@, |c: Cadence| v@[cadence_index(c)]),
{
    let ghost start = out@;
    push_cadence(out, name, Cadence::Daily, v[0]);
    push_cadence(out, name, Cadence::Weekly, v[1]);
    push_cadence(out, name, Cadence::Monthly, v[2]);
    assert(out@ =~= start + cadence_lines(name@, |c: Cadence| v@[cadence_index(c)]));
}

/// Renders the Prometheus text exposition. `last_posted` holds, per
/// cadence in `idx` order, the time of the last posted summary (0 when none).
pub fn render(metrics: &Metrics, last_posted: [u64; 3]) -> (s: String)
    ensures
        s@ == exposition(*metrics, |c: Cadence| last_posted@[cadence_index(c)]),
{
    let mut out = String::new();
    let ghost e0 = out@;
    push_header(
        &mut out,
        "livepeer_bot_start_timestamp",
        "Unix time the bot process started",
        "gauge",
    );
    push_plain(&mut out, "livepeer_bot_start_timestamp", metrics.started_unix);
    push_header(
        &mut out,
        "livepeer_bot_digest_last_posted_timestamp",
        "Unix time of the most recent posted digest per cadence (from DB)",
        "gauge",
    );
    push_cadences(&mut out, "livepeer_bot_digest_last_posted_timestamp", &last_posted);
    push_header(
        &mut out,
        "livepeer_bot_digest_posts_total",
        "Digests posted since process start",
        "counter",
    );
    push_cadences(&mut out, "livepeer_bot_digest_posts_total", &metrics.posts_total);
    push_header(
        &mut out,
        "livepeer_bot_digest_deferrals_total",
        "Digest polls that deferred since process start",
        "counter",
    );
    push_cadences(&mut out, "livepeer_bot_digest_deferrals_total", &metrics.deferrals_total);
    push_header(
        &mut out,
        "livepeer_bot_reward_watch_alerts_total",
        "Reward-call pending DM fan-outs since process start",
        "counter",
    );
    push_plain(&mut out, "livepeer_bot_reward_watch_alerts_total", metrics.reward_watch_alerts_total);
    push_header(
        &mut out,
        "livepeer_bot_reward_watch_missed_total",
        "Missed-reward DM fan-outs since process start",
        "counter",
    );
    push_plain(&mut out, "livepeer_bot_reward_watch_missed_total", metrics.reward_watch_missed_total);
    push_header(
        &mut out,
        "livepeer_bot_reward_watch_digests_total",
        "Delinquency digests posted since process start",
        "counter",
    );
    push_plain(
        &mut out,
        "livepeer_bot_reward_watch_digests_total",
        metrics.reward_watch_digests_total,
    );
    proof {
        let posts = |c: Cadence| metrics.posts(c);
        let posts_arr = |c: Cadence| metrics.posts_total@[cadence_index(c)];
        assert(posts =~= posts_arr);
        let defs = |c: Cadence| metrics.deferrals(c);
        let defs_arr = |c: Cadence| metrics.deferrals_total@[cadence_index(c)];
        assert(defs =~= defs_arr);
        assert(e0 =~= Seq::<char>::empty());
        assert(out@ =~= exposition(*metrics, |c: Cadence| last_posted@[cadence_index(c)]));
    }
    out
}

} // verus!
