//! Decisions of the reward-call watcher: which round the missed-reward pass
//! reconciles, when the public delinquency digest is due, which
//! orchestrators have called reward, and when a ladder alert goes out.

use vstd::prelude::*;
use crate::numbers::{parse_i64, signed_decimal_reads_back, signed_syntax, signed_value};
use crate::text::{i64_text, lowercase, signed_decimal, str_equal, to_lowercase};

verus! {

/// Seconds per Ethereum L1 block.
pub const L1_BLOCK_SECS: u64 = 12;

/// Page size when listing round events or orchestrators.
pub const WATCH_PAGE_LIMIT: u32 = 200;

/// Rounds of watch state kept before the current one.
pub const PRUNE_KEEP_ROUNDS: i64 = 8;

/// Settings of the watcher.
pub struct RewardWatchSettings {
    pub poll_interval_secs: u64,
    /// Round completion, in percent, of the first ladder alert.
    pub first_alert_pct: u32,
    /// Percent of round completion between later ladder alerts.
    pub realert_step_pct: u32,
    /// Round completion, in percent, from which the public digest is due.
    pub digest_pct: u32,
    pub round_length_blocks: u64,
    /// When false the public digest is skipped; DMs still go out.
    pub post_digest: bool,
    /// Consecutive DM refusals after which a subscription is flagged.
    pub failure_threshold: i64,
}

/// The round number stored in a cursor, when it reads as one.
pub open spec fn cursor_round(cursor: Option<Seq<char>>) -> Option<int> {
    match cursor {
        Some(t) => if signed_syntax(t) && i64::MIN <= signed_value(t) <= i64::MAX {
            Some(signed_value(t))
        } else {
            None
        },
        None => None,
    }
}

/// An optional text as plain characters.
pub open spec fn opt_text(v: Option<String>) -> Option<Seq<char>> {
    match v {
        Some(s) => Some(s@),
        None => None,
    }
}

fn read_round(cursor: Option<String>) -> (r: Option<i64>)
    ensures
        match cursor_round(opt_text(cursor)) {
            Some(n) => r == Some(n as i64),
            None => r is None,
        },
{
    match cursor {
        Some(t) => match parse_i64(t.as_str()) {
            Ok(n) => Some(n),
            Err(_) => None,
        },
        None => None,
    }
}

/// The round reconciled by the missed-reward pass while `current` runs:
/// the previous round, unless the cursor of the last reconciled round
/// already reaches it. An unreadable or missing cursor counts as the
/// previous round done, so a first deploy sends nothing about a round
/// nobody was watching.
pub open spec fn missed_target(current: int, cursor: Option<Seq<char>>) -> Option<int> {
    let prev = current - 1;
    let done = match cursor_round(cursor) {
        Some(d) => d,
        None => prev,
    };
    if done < prev {
        Some(prev)
    } else {
        None
    }
}

/// The round the missed-reward pass reconciles, if any.
pub fn missed_pass_round(current: i64, cursor: Option<String>) -> (r: Option<i64>)
    requires
        current > i64::MIN,
    ensures
        match missed_target(current as int, opt_text(cursor)) {
            Some(p) => r == Some(p as i64),
            None => r is None,
        },
{
    let prev = current - 1;
    let done = match read_round(cursor) {
        Some(d) => d,
        None => prev,
    };
    if done < prev {
        Some(prev)
    } else {
        None
    }
}

/// The cursor text stored once `round` is reconciled or its digest posted.
pub fn round_cursor(round: i64) -> (s: String)
    ensures
        s@ == signed_decimal(round as int),
{
    i64_text(round)
}

/// Watch state older than this round is dropped.
pub fn prune_before_round(current: i64) -> (r: i64)
    requires
        current >= i64::MIN + PRUNE_KEEP_ROUNDS,
    ensures
        r == current - PRUNE_KEEP_ROUNDS,
{
    current - PRUNE_KEEP_ROUNDS
}

/// Whether the public digest of `round` is still to be posted: the last
/// posted round (0 when unknown) is below it.
pub open spec fn digest_due_spec(round: int, cursor: Option<Seq<char>>) -> bool {
    let posted = match cursor_round(cursor) {
        Some(p) => p,
        None => 0,
    };
    posted < round
}

/// Whether the public digest of `round` is still to be posted.
pub fn digest_due(round: i64, cursor: Option<String>) -> (b: bool)
    ensures
        b == digest_due_spec(round as int, opt_text(cursor)),
{
    let posted = match read_round(cursor) {
        Some(p) => p,
        None => 0,
    };
    posted < round
}

/// Once the cursor holds a reconciled round, the missed-reward pass does
/// not reconcile it again while the same round runs.
pub proof fn missed_pass_runs_once_per_round(current: int)
    requires
        i64::MIN < current <= i64::MAX,
    ensures
        missed_target(current, Some(signed_decimal(current - 1))) is None,
{
    signed_decimal_reads_back(current - 1);
}

/// Once the cursor holds a round whose digest was posted, the digest of
/// that round is not due again.
pub proof fn digest_posted_once_per_round(round: int)
    requires
        i64::MIN <= round <= i64::MAX,
    ensures
        !digest_due_spec(round, Some(signed_decimal(round))),
{
    signed_decimal_reads_back(round);
}

/// Where one run of the public digest stands.
#[derive(Debug, Clone)]
pub enum DigestProgress {
    /// The run begins; `cursor` holds the last round whose digest was
    /// posted, as stored.
    Begin { cursor: Option<String> },
    /// The full orchestrator listing was read: `found` of them are
    /// delinquent.
    Listed { found: usize },
    /// The digest was sent.
    Sent,
}

/// What a run of the public digest does next.
#[derive(Debug, Clone, PartialEq, Eq)]
pub enum DigestCommand {
    /// Nothing to do: the run ends.
    Stop,
    /// Read the full orchestrator listing and count the delinquents.
    List,
    /// Send the digest naming the delinquents.
    Send,
    /// Store `cursor` as the last posted round; the run ends.
    Record { cursor: String },
}

/// A digest command as plain values.
pub enum DigestMove {
    Stop,
    List,
    Send,
    Record(Seq<char>),
}

pub open spec fn command_move(c: DigestCommand) -> DigestMove {
    match c {
        DigestCommand::Stop => DigestMove::Stop,
        DigestCommand::List => DigestMove::List,
        DigestCommand::Send => DigestMove::Send,
        DigestCommand::Record { cursor } => DigestMove::Record(cursor@),
    }
}

/// The next move of the digest run for `round`: list only when the digest
/// is due, send only when someone is delinquent, and record the round once
/// the digest is sent or there was nobody to name.
pub open spec fn digest_move(round: int, p: DigestProgress) -> DigestMove {
    match p {
        DigestProgress::Begin { cursor } => if digest_due_spec(round, opt_text(cursor)) {
            DigestMove::List
        } else {
            DigestMove::Stop
        },
        DigestProgress::Listed { found } => if found > 0 {
            DigestMove::Send
        } else {
            DigestMove::Record(signed_decimal(round))
        },
        DigestProgress::Sent => DigestMove::Record(signed_decimal(round)),
    }
}

/// The next command of the digest run for `round`.
pub fn digest_next(round: i64, progress: DigestProgress) -> (c: DigestCommand)
    ensures
        command_move(c) == digest_move(round as int, progress),
{
    match progress {
        DigestProgress::Begin { cursor } => if digest_due(round, cursor) {
            DigestCommand::List
        } else {
            DigestCommand::Stop
        },
        DigestProgress::Listed { found } => if found > 0 {
            DigestCommand::Send
        } else {
            DigestCommand::Record { cursor: round_cursor(round) }
        },
        DigestProgress::Sent => DigestCommand::Record { cursor: round_cursor(round) },
    }
}

/// At most one digest per round: a run sends only after listing, a send is
/// followed by recording the round, and once the round is recorded a run
/// for it, or for any earlier round, stops at once.
pub proof fn digest_sent_at_most_once_per_round(round: int, earlier: int, p: DigestProgress)
    requires
        i64::MIN <= round <= i64::MAX,
        earlier <= round,
    ensures
        digest_move(round, p) == DigestMove::Send ==> p is Listed,
        digest_move(round, DigestProgress::Sent) == DigestMove::Record(signed_decimal(round)),
        forall|s: String|
            s@ == signed_decimal(round) ==> #[trigger] digest_move(
                earlier,
                DigestProgress::Begin { cursor: Some(s) },
            ) == DigestMove::Stop,
{
    signed_decimal_reads_back(round);
}

/// Entry `j` of a page names rewarding address `a` (lower-cased).
pub open spec fn page_names(to_addresses: Seq<Option<String>>, j: int, a: Seq<char>) -> bool {
    to_addresses[j] matches Some(t) && lowercase(t@) == a
}

/// The lower-cased rewarding addresses among the first `n` page entries.
pub open spec fn page_addresses(to_addresses: Seq<Option<String>>, n: int) -> Set<Seq<char>> {
    Set::new(|a: Seq<char>| exists|j: int| 0 <= j < n && #[trigger] page_names(to_addresses, j, a))
}

/// The orchestrators, lower-cased, that have called reward in a round.
/// Held as a list compared character by character, so that membership is
/// proved from the characters of the addresses alone.
pub struct RewardedSet {
    members: Vec<String>,
}

impl RewardedSet {
    /// The lower-cased addresses held.
    pub closed spec fn addresses(&self) -> Set<Seq<char>> {
        Set::new(|a: Seq<char>| exists|i: int| 0 <= i < self.members@.len() && #[trigger] self.members@[i]@ == a)
    }

    /// No address yet.
    pub fn new() -> (s: Self)
        ensures
            s.addresses() == Set::<Seq<char>>::empty(),
    {
        let s = RewardedSet { members: Vec::new() };
        assert(s.addresses() =~= Set::<Seq<char>>::empty());
        s
    }

    /// Adds the rewarding addresses of one page of round events; events
    /// without one are skipped.
    pub fn add_page(&mut self, to_addresses: &Vec<Option<String>>)
        ensures
            final(self).addresses() == old(self).addresses().union(
                page_addresses(to_addresses@, to_addresses@.len() as int),
            ),
    {
        let ghost start = self.addresses();
        let mut i: usize = 0;
        while i < to_addresses.len()
            invariant
                i <= to_addresses@.len(),
                self.addresses() == start.union(page_addresses(to_addresses@, i as int)),
            decreases to_addresses@.len() - i,
        {
            let ghost before = self.addresses();
            let ghost old_members = self.members@;
            match &to_addresses[i] {
                Some(t) => {
                    let lower = to_lowercase(t.as_str());
                    self.members.push(lower);
                    proof {
                        assert forall|a: Seq<char>| #[trigger] self.addresses().contains(a) == (before.contains(a) || a == lowercase(t@)) by {
                            if before.contains(a) {
                                let k = choose|k: int| 0 <= k < old_members.len() && #[trigger] old_members[k]@ == a;
                                assert(self.members@[k] == old_members[k]);
                            }
                            if a == lowercase(t@) {
                                assert(self.members@[old_members.len() as int]@ == a);
                            }
                            if self.addresses().contains(a) {
                                let k = choose|k: int| 0 <= k < self.members@.len() && #[trigger] self.members@[k]@ == a;
                                if k < old_members.len() {
                                    assert(old_members[k]@ == a);
                                }
                            }
                        }
                    }
                },
                None => {},
            }
            proof {
                let next = page_addresses(to_addresses@, i + 1);
                let prev = page_addresses(to_addresses@, i as int);
                assert forall|a: Seq<char>| #[trigger] next.contains(a) == (prev.contains(a)
                    || page_names(to_addresses@, i as int, a)) by {
                    if next.contains(a) {
                        let j = choose|j: int| 0 <= j < i + 1 && #[trigger] page_names(to_addresses@, j, a);
                        if j < i {
                            assert(prev.contains(a));
                        }
                    }
                    if prev.contains(a) {
                        let j = choose|j: int| 0 <= j < i && #[trigger] page_names(to_addresses@, j, a);
                        assert(page_names(to_addresses@, j, a));
                    }
                    if page_names(to_addresses@, i as int, a) {
                        assert(next.contains(a));
                    }
                }
                assert forall|a: Seq<char>| #[trigger] self.addresses().contains(a) == (before.contains(a)
                    || page_names(to_addresses@, i as int, a)) by {
                    if to_addresses@[i as int] is None {
                        assert(self.members@ == old_members);
                    }
                }
                assert(self.addresses() =~= start.union(next));
            }
            i += 1;
        }
    }

    /// Whether `orch`, lower-cased, has called reward.
    pub fn contains_orch(&self, orch: &str) -> (b: bool)
        ensures
            b == self.addresses().contains(lowercase(orch@)),
    {
        let lower = to_lowercase(orch);
        let mut i: usize = 0;
        while i < self.members.len()
            invariant
                i <= self.members@.len(),
                lower@ == lowercase(orch@),
                forall|j: int| 0 <= j < i ==> #[trigger] self.members@[j]@ != lower@,
            decreases self.members@.len() - i,
        {
            if str_equal(self.members[i].as_str(), lower.as_str()) {
                return true;
            }
            i += 1;
        }
        proof {
            if self.addresses().contains(lowercase(orch@)) {
                let k = choose|k: int| 0 <= k < self.members@.len() && #[trigger] self.members@[k]@ == lowercase(orch@);
                assert(self.members@[k]@ != lower@);
            }
        }
        false
    }
}

/// Whether an orchestrator's profile must be fetched to decide on a ladder
/// alert: rungs are due, it has not called reward, and fewer rungs than
/// due have gone out.
pub open spec fn ladder_pending(rewarded: bool, due: i64, sent: i64) -> bool {
    due > 0 && !rewarded && sent < due
}

/// Whether a ladder alert may be pending for an orchestrator.
pub fn ladder_alert_pending(rewarded: bool, due: i64, sent: i64) -> (b: bool)
    ensures
        b == ladder_pending(rewarded, due, sent),
{
    due > 0 && !rewarded && sent < due
}

/// A ladder alert is pending exactly when at least one rung is due, the
/// orchestrator has not called reward, and fewer rungs were alerted than
/// are due: the first rung goes out as soon as it is due.
pub proof fn ladder_alert_pending_when_behind(rewarded: bool, due: i64, sent: i64)
    ensures
        due > 0 && !rewarded && sent < due ==> ladder_pending(rewarded, due, sent),
        ladder_pending(rewarded, due, sent) ==> due > 0 && !rewarded && sent < due,
        ladder_pending(false, 1, 0),
{
}

/// What the ladder does for one orchestrator once its profile is known.
pub struct LadderStep {
    /// DM its subscribers (and count one fan-out).
    pub send: bool,
    /// The rung count to record, when one is recorded.
    pub record: Option<i64>,
}

/// Inactive orchestrators are not expected to call reward and get nothing;
/// for an active one the subscribers, if any, are messaged and the rung
/// count is raised to `due`.
pub fn ladder_step(active: bool, has_subscribers: bool, due: i64) -> (s: LadderStep)
    ensures
        s.send == (active && has_subscribers),
        s.record == if active { Some(due) } else { None::<i64> },
{
    if !active {
        LadderStep { send: false, record: None }
    } else {
        LadderStep { send: has_subscribers, record: Some(due) }
    }
}

/// Once the rung count recorded after an alert is `due`, no further alert
/// is pending until more rungs fall due: one message per rung, however
/// many ticks pass.
pub proof fn ladder_alerts_once_per_rung(rewarded: bool, due: i64, later_due: i64)
    requires
        later_due <= due,
    ensures
        !ladder_pending(rewarded, later_due, due),
{
}

/// Whether an orchestrator's profile must be fetched in the missed-reward
/// pass: it did not call reward and was not yet told.
pub fn missed_alert_pending(rewarded: bool, already_notified: bool) -> (b: bool)
    ensures
        b == (!rewarded && !already_notified),
{
    !rewarded && !already_notified
}

/// The positions, in order, of the first `n` listed orchestrators that are
/// active and have not called reward.
pub open spec fn delinquents_among(
    addresses: Seq<String>,
    active: Seq<bool>,
    rewarded: Set<Seq<char>>,
    n: int,
) -> Seq<usize>
    decreases n,
{
    if n <= 0 {
        Seq::empty()
    } else {
        let rest = delinquents_among(addresses, active, rewarded, n - 1);
        if active[n - 1] && !rewarded.contains(lowercase(addresses[n - 1]@)) {
            rest.push((n - 1) as usize)
        } else {
            rest
        }
    }
}

/// The orchestrators of a listing page that the public digest names:
/// active ones that have not called reward, in listing order.
pub fn delinquent_positions(
    addresses: &Vec<String>,
    active: &Vec<bool>,
    rewarded: &RewardedSet,
) -> (r: Vec<usize>)
    requires
        addresses@.len() == active@.len(),
    ensures
        r@ == delinquents_among(addresses@, active@, rewarded.addresses(), addresses@.len() as int),
{
    let mut r: Vec<usize> = Vec::new();
    let mut i: usize = 0;
    while i < addresses.len()
        invariant
            i <= addresses@.len(),
            addresses@.len() == active@.len(),
            r@ == delinquents_among(addresses@, active@, rewarded.addresses(), i as int),
        decreases addresses@.len() - i,
    {
        if active[i] && !rewarded.contains_orch(addresses[i].as_str()) {
            r.push(i);
        }
        i += 1;
    }
    r
}

} // verus!
