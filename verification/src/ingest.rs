//! Ingesting explorer event pages and sorting delegator activity for the
//! subscriber digest.

use vstd::prelude::*;
use vstd::string::*;
use crate::text::str_equal;

verus! {

/// Events requested per page.
pub const EVENT_PAGE_LIMIT: u32 = 100;

/// What to do after one page of events has been stored.
pub enum PageStep {
    /// Stop: the page was empty or no further cursor was given.
    Done,
    /// Store `cursor` as the new position; fetch the next page when `more`.
    Advance { cursor: String, more: bool },
}

/// The step after a page of `data_len` events with continuation `next`,
/// requested with `limit`: an empty page or a missing cursor ends the walk;
/// otherwise the cursor advances, and a short page ends it too.
pub fn page_step(data_len: usize, next: Option<String>, limit: u32) -> (s: PageStep)
    ensures
        data_len == 0 ==> s is Done,
        data_len > 0 ==> match next {
            None => s is Done,
            Some(c) => s matches PageStep::Advance { cursor, more } && cursor == c && more == (
            data_len >= limit),
        },
{
    if data_len == 0 {
        return PageStep::Done;
    }
    match next {
        None => PageStep::Done,
        Some(c) => PageStep::Advance { cursor: c, more: data_len >= limit as usize },
    }
}

/// The name of the cursor that tracks the event stream `event_name`.
pub fn cursor_name(event_name: &str) -> (s: String)
    ensures
        s@ == "events:"@ + event_name@,
{
    let mut s = String::from_str("events:");
    s.append(event_name);
    s
}

/// The (delegator, orchestrator) pair whose first bond is recorded after an
/// event was stored: only for a newly stored `Bond` naming both parties.
pub fn first_seen_pair(
    inserted: bool,
    event_name: &str,
    from_address: Option<String>,
    to_address: Option<String>,
) -> (r: Option<(String, String)>)
    ensures
        r is Some <==> (inserted && event_name@ == "Bond"@ && from_address is Some && to_address is Some),
        r matches Some(p) ==> Some(p.0) == from_address && Some(p.1) == to_address,
{
    if inserted && str_equal(event_name, "Bond") {
        match (from_address, to_address) {
            (Some(d), Some(o)) => Some((d, o)),
            _ => None,
        }
    } else {
        None
    }
}

/// The digest section a delegator event belongs to.
#[derive(Debug, Clone, Copy, PartialEq, Eq, Structural)]
pub enum DelegatorBucket {
    /// A bond by a delegator with no earlier event for the orchestrator.
    NewBond,
    /// A bond by a delegator seen before: more stake.
    StakeChange,
    Unbond,
    Rebond,
    /// Any other event: left out of the digest.
    Ignored,
}

/// The section of an event named `event_name`; for a `Bond`, `prior` is the
/// number of earlier events of the same delegator and orchestrator.
pub open spec fn bucket_of(event_name: Seq<char>, prior: Option<i64>) -> DelegatorBucket {
    if event_name == "Bond"@ {
        if prior == Some(0i64) {
            DelegatorBucket::NewBond
        } else {
            DelegatorBucket::StakeChange
        }
    } else if event_name == "Unbond"@ {
        DelegatorBucket::Unbond
    } else if event_name == "Rebond"@ {
        DelegatorBucket::Rebond
    } else {
        DelegatorBucket::Ignored
    }
}

/// A bond opens "New delegators" exactly when the delegator has no earlier
/// event with the orchestrator; every later bond, whatever its count of
/// earlier events, is a stake increase. Unbonds and rebonds have their own
/// sections whatever the count, and every other event is left out.
pub proof fn bond_is_new_only_without_history(prior: i64, other_count: Option<i64>, name: Seq<char>)
    ensures
        bucket_of("Bond"@, Some(prior)) == DelegatorBucket::NewBond <==> prior == 0,
        prior > 0 ==> bucket_of("Bond"@, Some(prior)) == DelegatorBucket::StakeChange,
        prior != 0 ==> bucket_of("Bond"@, Some(prior)) == DelegatorBucket::StakeChange,
        bucket_of("Unbond"@, other_count) == DelegatorBucket::Unbond,
        bucket_of("Rebond"@, other_count) == DelegatorBucket::Rebond,
        name != "Bond"@ && name != "Unbond"@ && name != "Rebond"@ ==> bucket_of(name, other_count)
            == DelegatorBucket::Ignored,
{
    reveal_strlit("Bond");
    reveal_strlit("Unbond");
    reveal_strlit("Rebond");
    assert("Unbond"@.len() != "Bond"@.len());
    assert("Rebond"@.len() != "Bond"@.len());
    assert("Rebond"@[0] != "Unbond"@[0]);
}

/// Whether classifying an event needs the count of earlier events.
pub fn needs_prior_count(event_name: &str) -> (b: bool)
    ensures
        b == (event_name@ == "Bond"@),
{
    str_equal(event_name, "Bond")
}

/// The digest section of an event. A `Bond` needs `prior`.
pub fn classify_delegator_event(event_name: &str, prior: Option<i64>) -> (b: DelegatorBucket)
    requires
        event_name@ == "Bond"@ ==> prior is Some,
    ensures
        b == bucket_of(event_name@, prior),
{
    if str_equal(event_name, "Bond") {
        match prior {
            Some(0) => DelegatorBucket::NewBond,
            _ => DelegatorBucket::StakeChange,
        }
    } else if str_equal(event_name, "Unbond") {
        DelegatorBucket::Unbond
    } else if str_equal(event_name, "Rebond") {
        DelegatorBucket::Rebond
    } else {
        DelegatorBucket::Ignored
    }
}

/// The events of one orchestrator's digest, by section, as positions in
/// the list of its events.
pub struct DelegatorDigest {
    pub new_bonds: Vec<usize>,
    pub stake_change_bonds: Vec<usize>,
    pub unbonds: Vec<usize>,
    pub rebonds: Vec<usize>,
}

/// The positions, in order, of the events in section `b`.
pub open spec fn positions_of(buckets: Seq<DelegatorBucket>, b: DelegatorBucket) -> Seq<usize>
    decreases buckets.len(),
{
    if buckets.len() == 0 {
        Seq::empty()
    } else if buckets.last() == b {
        positions_of(buckets.drop_last(), b).push((buckets.len() - 1) as usize)
    } else {
        positions_of(buckets.drop_last(), b)
    }
}

impl DelegatorDigest {
    /// Sorts events into sections, keeping their order within each.
    pub fn from_buckets(buckets: &Vec<DelegatorBucket>) -> (d: DelegatorDigest)
        ensures
            d.new_bonds@ == positions_of(buckets@, DelegatorBucket::NewBond),
            d.stake_change_bonds@ == positions_of(buckets@, DelegatorBucket::StakeChange),
            d.unbonds@ == positions_of(buckets@, DelegatorBucket::Unbond),
            d.rebonds@ == positions_of(buckets@, DelegatorBucket::Rebond),
    {
        let mut d = DelegatorDigest {
            new_bonds: Vec::new(),
            stake_change_bonds: Vec::new(),
            unbonds: Vec::new(),
            rebonds: Vec::new(),
        };
        let mut i: usize = 0;
        assert(buckets@.take(0) =~= Seq::<DelegatorBucket>::empty());
        while i < buckets.len()
            invariant
                i <= buckets@.len(),
                d.new_bonds@ == positions_of(buckets@.take(i as int), DelegatorBucket::NewBond),
                d.stake_change_bonds@ == positions_of(
                    buckets@.take(i as int),
                    DelegatorBucket::StakeChange,
                ),
                d.unbonds@ == positions_of(buckets@.take(i as int), DelegatorBucket::Unbond),
                d.rebonds@ == positions_of(buckets@.take(i as int), DelegatorBucket::Rebond),
            decreases buckets@.len() - i,
        {
            proof {
                let t = buckets@.take(i + 1);
                assert(t.drop_last() =~= buckets@.take(i as int));
                assert(t.last() == buckets@[i as int]);
            }
            match buckets[i] {
                DelegatorBucket::NewBond => d.new_bonds.push(i),
                DelegatorBucket::StakeChange => d.stake_change_bonds.push(i),
                DelegatorBucket::Unbond => d.unbonds.push(i),
                DelegatorBucket::Rebond => d.rebonds.push(i),
                DelegatorBucket::Ignored => {},
            }
            i += 1;
        }
        assert(buckets@.take(buckets.len() as int) =~= buckets@);
        d
    }

    /// Whether no section holds an event.
    pub fn is_empty(&self) -> (b: bool)
        ensures
            b == (self.new_bonds@.len() == 0 && self.stake_change_bonds@.len() == 0
                && self.unbonds@.len() == 0 && self.rebonds@.len() == 0),
    {
        self.new_bonds.len() == 0 && self.stake_change_bonds.len() == 0 && self.unbonds.len() == 0
            && self.rebonds.len() == 0
    }
}

/// The events of one orchestrator, as positions in the pending list.
pub struct OrchGroup {
    pub orch: String,
    pub events: Vec<usize>,
}

/// `groups` split the positions `0..n` by orchestrator: each position is in
/// exactly one group, the one of its orchestrator; no orchestrator has two
/// groups; positions ascend within a group.
pub open spec fn groups_partition(orchs: Seq<String>, n: int, groups: Seq<OrchGroup>) -> bool {
    &&& forall|g: int, k: int|
        0 <= g < groups.len() && 0 <= k < groups[g].events@.len() ==> {
            let e = #[trigger] groups[g].events@[k];
            &&& e < n
            &&& orchs[e as int]@ == groups[g].orch@
        }
    &&& forall|g: int, k: int, l: int|
        0 <= g < groups.len() && 0 <= k < l < groups[g].events@.len() ==> #[trigger] groups[g].events@[k]
            < #[trigger] groups[g].events@[l]
    &&& forall|g: int, h: int|
        0 <= g < h < groups.len() ==> #[trigger] groups[g].orch@ != #[trigger] groups[h].orch@
    &&& forall|g: int| 0 <= g < groups.len() ==> #[trigger] groups[g].events@.len() > 0
    &&& forall|i: int| 0 <= i < n ==> #[trigger] covers(groups, i)
}

/// Some group holds position `i`.
pub open spec fn covers(groups: Seq<OrchGroup>, i: int) -> bool {
    exists|g: int, k: int|
        0 <= g < groups.len() && 0 <= k < groups[g].events@.len() && #[trigger] groups[g].events@[k]
            == i
}

/// Groups pending events by orchestrator. `orchs[i]` is the orchestrator
/// of event `i`; groups come in the order their orchestrator first appears.
pub fn group_by_orchestrator(orchs: &Vec<String>) -> (groups: Vec<OrchGroup>)
    ensures
        groups_partition(orchs@, orchs@.len() as int, groups@),
        forall|g: int, h: int|
            0 <= g < h < groups@.len() ==> #[trigger] groups@[g].events@[0]
                < #[trigger] groups@[h].events@[0],
{
    let mut groups: Vec<OrchGroup> = Vec::new();
    let mut i: usize = 0;
    while i < orchs.len()
        invariant
            i <= orchs@.len(),
            groups_partition(orchs@, i as int, groups@),
            forall|g: int, h: int|
                0 <= g < h < groups@.len() ==> #[trigger] groups@[g].events@[0]
                    < #[trigger] groups@[h].events@[0],
        decreases orchs@.len() - i,
    {
        let mut g: usize = 0;
        let mut found = false;
        while g < groups.len()
            invariant_except_break
                g <= groups@.len(),
                !found,
                forall|h: int| 0 <= h < g ==> #[trigger] groups@[h].orch@ != orchs@[i as int]@,
            invariant
                i < orchs@.len(),
            ensures
                found ==> g < groups@.len() && groups@[g as int].orch@ == orchs@[i as int]@,
                !found ==> forall|h: int|
                    0 <= h < groups@.len() ==> #[trigger] groups@[h].orch@ != orchs@[i as int]@,
            decreases groups@.len() - g,
        {
            if str_equal(groups[g].orch.as_str(), orchs[i].as_str()) {
                found = true;
                break;
            }
            g += 1;
        }
        let ghost old_groups = groups@;
        if found {
            let mut grp = groups.remove(g);
            let ghost old_events = grp.events@;
            grp.events.push(i);
            groups.insert(g, grp);
            proof {
                assert(groups@ =~= old_groups.update(g as int, groups@[g as int]));
                assert(groups@[g as int].events@ == old_events.push(i));
                assert(old_groups[g as int].events@ == old_events);
                assert forall|i2: int| 0 <= i2 < i + 1 implies #[trigger] covers(groups@, i2) by {
                    if i2 == i {
                        assert(groups@[g as int].events@[old_events.len() as int] == i2);
                    } else {
                        assert(covers(old_groups, i2));
                        let (g2, k) = choose|g2: int, k: int|
                            0 <= g2 < old_groups.len() && 0 <= k < old_groups[g2].events@.len()
                                && #[trigger] old_groups[g2].events@[k] == i2;
                        if g2 == g {
                            assert(groups@[g2].events@[k] == i2);
                        } else {
                            assert(groups@[g2] == old_groups[g2]);
                            assert(groups@[g2].events@[k] == i2);
                        }
                    }
                }
                assert forall|g2: int, k: int, l: int|
                    0 <= g2 < groups@.len() && 0 <= k < l < groups@[g2].events@.len() implies #[trigger] groups@[g2].events@[k]
                    < #[trigger] groups@[g2].events@[l] by {
                    if g2 == g && l == old_events.len() {
                        assert(old_events[k] < i);
                    } else if g2 != g {
                        assert(groups@[g2] == old_groups[g2]);
                    }
                }
                assert forall|g2: int, k: int|
                    0 <= g2 < groups@.len() && 0 <= k < groups@[g2].events@.len() implies {
                    let e = #[trigger] groups@[g2].events@[k];
                    &&& e < i + 1
                    &&& orchs@[e as int]@ == groups@[g2].orch@
                } by {
                    if g2 != g {
                        assert(groups@[g2] == old_groups[g2]);
                    } else if k < old_events.len() {
                        assert(groups@[g2].events@[k] == old_events[k]);
                    }
                }
                assert forall|g2: int, h: int|
                    0 <= g2 < h < groups@.len() implies #[trigger] groups@[g2].orch@
                    != #[trigger] groups@[h].orch@ by {
                    assert(groups@[g2].orch@ == old_groups[g2].orch@);
                    assert(groups@[h].orch@ == old_groups[h].orch@);
                }
                assert forall|g2: int| 0 <= g2 < groups@.len() implies #[trigger] groups@[g2].events@.len() > 0 by {
                    if g2 != g {
                        assert(groups@[g2] == old_groups[g2]);
                    }
                }
                assert forall|g2: int, h: int|
                    0 <= g2 < h < groups@.len() implies #[trigger] groups@[g2].events@[0]
                    < #[trigger] groups@[h].events@[0] by {
                    assert(groups@[g2].events@[0] == old_groups[g2].events@[0]);
                    assert(groups@[h].events@[0] == old_groups[h].events@[0]);
                }
            }
        } else {
            let mut events: Vec<usize> = Vec::new();
            events.push(i);
            groups.push(OrchGroup { orch: orchs[i].clone(), events });
            proof {
                let last = old_groups.len() as int;
                assert forall|i2: int| 0 <= i2 < i + 1 implies #[trigger] covers(groups@, i2) by {
                    if i2 == i {
                        assert(groups@[last].events@[0] == i2);
                    } else {
                        assert(covers(old_groups, i2));
                        let (g2, k) = choose|g2: int, k: int|
                            0 <= g2 < old_groups.len() && 0 <= k < old_groups[g2].events@.len()
                                && #[trigger] old_groups[g2].events@[k] == i2;
                        assert(groups@[g2] == old_groups[g2]);
                        assert(groups@[g2].events@[k] == i2);
                    }
                }
                assert forall|g2: int, h: int|
                    0 <= g2 < h < groups@.len() implies #[trigger] groups@[g2].orch@
                    != #[trigger] groups@[h].orch@ by {
                    if h == last {
                        assert(groups@[g2] == old_groups[g2]);
                    } else {
                        assert(groups@[g2] == old_groups[g2]);
                        assert(groups@[h] == old_groups[h]);
                    }
                }
                assert forall|g2: int, k: int|
                    0 <= g2 < groups@.len() && 0 <= k < groups@[g2].events@.len() implies {
                    let e = #[trigger] groups@[g2].events@[k];
                    &&& e < i + 1
                    &&& orchs@[e as int]@ == groups@[g2].orch@
                } by {
                    if g2 < last {
                        assert(groups@[g2] == old_groups[g2]);
                    }
                }
                assert forall|g2: int, k: int, l: int|
                    0 <= g2 < groups@.len() && 0 <= k < l < groups@[g2].events@.len() implies #[trigger] groups@[g2].events@[k]
                    < #[trigger] groups@[g2].events@[l] by {
                    if g2 < last {
                        assert(groups@[g2] == old_groups[g2]);
                    }
                }
                assert forall|g2: int| 0 <= g2 < groups@.len() implies #[trigger] groups@[g2].events@.len() > 0 by {
                    if g2 < last {
                        assert(groups@[g2] == old_groups[g2]);
                    }
                }
                assert forall|g2: int, h: int|
                    0 <= g2 < h < groups@.len() implies #[trigger] groups@[g2].events@[0]
                    < #[trigger] groups@[h].events@[0] by {
                    assert(groups@[g2] == old_groups[g2]);
                    if h < last {
                        assert(groups@[h] == old_groups[h]);
                    } else {
                        assert(old_groups[g2].events@[0] < i);
                    }
                }
            }
        }
        i += 1;
    }
    groups
}

} // verus!
