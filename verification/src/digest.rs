//! Planning of one run of the public payout-digest poster.
//!
//! Unsent winning tickets are grouped by orchestrator. An orchestrator with
//! exactly one ticket whose gateway is known gets a single-ticket message;
//! one with more gets up to two digests, one per job type (AI or
//! transcoding). Messages go out oldest effective timestamp first: a
//! message's timestamp is that of its newest ticket, and ties are broken by
//! orchestrator address, then transcoding before AI.

use vstd::prelude::*;

use crate::text::{
    seq_less, seq_less_irreflexive, seq_less_total, seq_less_transitive, str_equal, str_less,
};

verus! {

/// What the planner needs to know of one unsent ticket.
#[derive(Debug, Clone)]
pub struct DigestTicket {
    /// Orchestrator that redeemed the ticket (`to_address`).
    pub orch_address: Option<String>,
    /// Block timestamp, in Unix seconds.
    pub block_timestamp: i64,
    /// Job type of the paying gateway: `Some(true)` for AI, `Some(false)` for
    /// transcoding, `None` when the ticket names no gateway.
    pub gateway_is_ai: Option<bool>,
}

/// One message to post: the tickets (indices into the planner's input,
/// oldest first) of one orchestrator and one job type.
#[derive(Debug)]
pub struct DigestJob {
    pub orch_address: String,
    /// Timestamp of the newest ticket; the message's effective timestamp.
    pub latest_ts: i64,
    pub is_ai: bool,
    /// The orchestrator has exactly this one ticket with a known gateway:
    /// post the single-ticket embed rather than a digest.
    pub single: bool,
    pub tickets: Vec<usize>,
}

/// Ticket `i` belongs to orchestrator `o` and job type `k`.
pub open spec fn in_group(t: Seq<DigestTicket>, i: int, o: Seq<char>, k: bool) -> bool {
    &&& 0 <= i < t.len()
    &&& t[i].orch_address matches Some(a) && a@ == o
    &&& t[i].gateway_is_ai == Some(k)
}

/// Some position of `s` holds `i`.
pub open spec fn has_index(s: Seq<usize>, i: int) -> bool {
    exists|p: int| 0 <= p < s.len() && s[p] as int == i
}

/// Ticket `i` belongs to orchestrator `o` and the job type other than `k`.
pub open spec fn in_other_group(t: Seq<DigestTicket>, i: int, o: Seq<char>, k: bool) -> bool {
    in_group(t, i, o, !k)
}

/// Ticket `i` can be shown: it names an orchestrator and a gateway.
pub open spec fn viewable(t: Seq<DigestTicket>, i: int) -> bool {
    0 <= i < t.len() && t[i].orch_address is Some && t[i].gateway_is_ai is Some
}

/// Ticket `i` comes before ticket `j`: older, or as old and earlier in the
/// input.
pub open spec fn ticket_before(t: Seq<DigestTicket>, i: int, j: int) -> bool {
    t[i].block_timestamp < t[j].block_timestamp || (t[i].block_timestamp == t[j].block_timestamp
        && i < j)
}

/// `job` is exactly the message for its orchestrator and job type.
pub open spec fn job_fits(t: Seq<DigestTicket>, job: DigestJob) -> bool {
    let o = job.orch_address@;
    let k = job.is_ai;
    let s = job.tickets@;
    &&& s.len() > 0
    &&& forall|a: int| 0 <= a < s.len() ==> in_group(t, #[trigger] s[a] as int, o, k)
    &&& forall|a: int, b: int|
        0 <= a < b < s.len() ==> ticket_before(t, #[trigger] s[a] as int, #[trigger] s[b] as int)
    &&& forall|i: int| #[trigger] in_group(t, i, o, k) ==> has_index(s, i)
    &&& job.latest_ts == t[s.last() as int].block_timestamp
    &&& job.single == (s.len() == 1 && forall|i: int| !#[trigger] in_other_group(t, i, o, k))
}

/// Ordering key of a message.
pub open spec fn job_key(job: DigestJob) -> (int, Seq<char>, bool) {
    (job.latest_ts as int, job.orch_address@, job.is_ai)
}

/// Strict order on message keys: timestamp, then address, then
/// transcoding before AI.
pub open spec fn key_less(a: (int, Seq<char>, bool), b: (int, Seq<char>, bool)) -> bool {
    a.0 < b.0 || (a.0 == b.0 && (seq_less(a.1, b.1) || (a.1 == b.1 && !a.2 && b.2)))
}

proof fn key_less_transitive(a: (int, Seq<char>, bool), b: (int, Seq<char>, bool), c: (int, Seq<char>, bool))
    requires
        key_less(a, b),
        key_less(b, c),
    ensures
        key_less(a, c),
{
    if a.0 == b.0 && b.0 == c.0 {
        if seq_less(a.1, b.1) && seq_less(b.1, c.1) {
            seq_less_transitive(a.1, b.1, c.1);
        }
    }
}

proof fn key_less_total(a: (int, Seq<char>, bool), b: (int, Seq<char>, bool))
    requires
        a.1 != b.1 || a.2 != b.2,
    ensures
        key_less(a, b) || key_less(b, a),
{
    seq_less_total(a.1, b.1);
}

/// Indices of `t`, oldest first (input order among equal timestamps).
fn time_order(t: &Vec<DigestTicket>) -> (order: Vec<usize>)
    ensures
        order.len() == t.len(),
        forall|p: int| 0 <= p < order.len() ==> #[trigger] order@[p] < t.len(),
        forall|p: int, q: int|
            0 <= p < q < order.len() ==> ticket_before(
                t@,
                #[trigger] order@[p] as int,
                #[trigger] order@[q] as int,
            ),
        forall|i: int| 0 <= i < t.len() ==> #[trigger] has_index(order@, i),
{
    let mut order: Vec<usize> = Vec::new();
    let n = t.len();
    let mut i: usize = 0;
    while i < n
        invariant
            i <= n,
            n == t.len(),
            order.len() == i,
            forall|p: int| 0 <= p < order.len() ==> #[trigger] order@[p] < i,
            forall|p: int, q: int|
                0 <= p < q < order.len() ==> ticket_before(
                    t@,
                    #[trigger] order@[p] as int,
                    #[trigger] order@[q] as int,
                ),
            forall|j: int| 0 <= j < i ==> #[trigger] has_index(order@, j),
        decreases n - i,
    {
        let ts = t[i].block_timestamp;
        let mut p: usize = 0;
        while p < order.len() && t[order[p]].block_timestamp <= ts
            invariant
                p <= order.len(),
                order.len() == i,
                i < n,
                n == t.len(),
                ts == t@[i as int].block_timestamp,
                forall|q: int| 0 <= q < order.len() ==> #[trigger] order@[q] < i,
                forall|q: int| 0 <= q < p ==> ticket_before(t@, #[trigger] order@[q] as int, i as int),
            decreases order.len() - p,
        {
            p += 1;
        }
        let ghost old_order = order@;
        order.insert(p, i);
        proof {
            assert(order@ =~= old_order.insert(p as int, i));
            assert forall|a: int, b: int| 0 <= a < b < order.len() implies ticket_before(
                t@,
                #[trigger] order@[a] as int,
                #[trigger] order@[b] as int,
            ) by {
                if b < p {
                    assert(order@[a] == old_order[a] && order@[b] == old_order[b]);
                } else if b == p {
                    assert(order@[a] == old_order[a]);
                } else if a == p {
                    assert(order@[b] == old_order[b - 1]);
                    assert(p < old_order.len());
                    if b - 1 > p {
                        assert(ticket_before(t@, old_order[p as int] as int, old_order[b - 1] as int));
                    }
                } else if a < p {
                    assert(order@[a] == old_order[a] && order@[b] == old_order[b - 1]);
                } else {
                    assert(order@[a] == old_order[a - 1] && order@[b] == old_order[b - 1]);
                }
            }
            assert forall|j: int| 0 <= j < i + 1 implies #[trigger] has_index(order@, j) by {
                if j == i {
                    assert(order@[p as int] == i);
                } else {
                    assert(has_index(old_order, j));
                    let q = choose|q: int| 0 <= q < old_order.len() && old_order[q] as int == j;
                    if q < p {
                        assert(order@[q] == old_order[q]);
                    } else {
                        assert(order@[q + 1] == old_order[q]);
                    }
                }
            }
        }
        i += 1;
    }
    order
}


/// Ticket `i` has orchestrator `o` and job type `k`: the message key it
/// belongs under.
pub open spec fn has_key(t: Seq<DigestTicket>, i: int, o: Seq<char>, k: bool) -> bool {
    viewable(t, i) && t[i].orch_address->0@ == o && t[i].gateway_is_ai->0 == k
}

/// The groups found so far while walking `order` up to position `upto`.
spec fn groups_inv(
    t: Seq<DigestTicket>,
    order: Seq<usize>,
    orchs: Seq<String>,
    kinds: Seq<bool>,
    positions: Seq<Vec<usize>>,
    upto: int,
) -> bool {
    &&& orchs.len() == kinds.len()
    &&& orchs.len() == positions.len()
    &&& forall|j1: int, j2: int|
        0 <= j1 < j2 < orchs.len() ==> !(#[trigger] orchs[j1]@ == #[trigger] orchs[j2]@
            && kinds[j1] == kinds[j2])
    &&& forall|j: int| 0 <= j < positions.len() ==> (#[trigger] positions[j])@.len() > 0
    &&& forall|j: int, a: int|
        0 <= j < positions.len() && 0 <= a < positions[j]@.len() ==> {
            let q = (#[trigger] positions[j]@[a]) as int;
            &&& q < upto
            &&& in_group(t, order[q] as int, orchs[j]@, kinds[j])
        }
    &&& forall|j: int, a: int, b: int|
        0 <= j < positions.len() && 0 <= a < b < positions[j]@.len() ==> #[trigger] positions[j]@[a]
            < #[trigger] positions[j]@[b]
    &&& forall|j: int, q: int|
        0 <= j < positions.len() && 0 <= q < upto && in_group(
            t,
            #[trigger] order[q] as int,
            orchs[j]@,
            kinds[j],
        ) ==> has_index(#[trigger] positions[j]@, q)
    &&& forall|q: int|
        0 <= q < upto && viewable(t, #[trigger] order[q] as int) ==> exists|j: int|
            0 <= j < orchs.len() && has_key(t, order[q] as int, #[trigger] orchs[j]@, kinds[j])
}

/// Walk the tickets oldest first and collect, per orchestrator and job type,
/// the positions (in `order`) of its tickets.
fn group_tickets(t: &Vec<DigestTicket>, order: &Vec<usize>) -> (r: (
    Vec<String>,
    Vec<bool>,
    Vec<Vec<usize>>,
))
    requires
        order.len() == t.len(),
        forall|p: int| 0 <= p < order.len() ==> #[trigger] order@[p] < t.len(),
    ensures
        groups_inv(t@, order@, r.0@, r.1@, r.2@, order.len() as int),
{
    let mut orchs: Vec<String> = Vec::new();
    let mut kinds: Vec<bool> = Vec::new();
    let mut positions: Vec<Vec<usize>> = Vec::new();
    let n = order.len();
    let mut pos: usize = 0;
    while pos < n
        invariant
            pos <= n,
            n == order.len(),
            order.len() == t.len(),
            forall|p: int| 0 <= p < order.len() ==> #[trigger] order@[p] < t.len(),
            groups_inv(t@, order@, orchs@, kinds@, positions@, pos as int),
        decreases n - pos,
    {
        let i = order[pos];
        let ghost ti = t@[i as int];
        match (&t[i].orch_address, t[i].gateway_is_ai) {
            (Some(o), Some(k)) => {
                let mut found: Option<usize> = None;
                let mut j: usize = 0;
                while j < orchs.len()
                    invariant_except_break
                        found is None,
                        forall|j2: int|
                            0 <= j2 < j ==> !(#[trigger] orchs@[j2]@ == o@ && kinds@[j2] == k),
                    invariant
                        j <= orchs.len(),
                        orchs.len() == kinds.len(),
                    ensures
                        found is None ==> forall|j2: int|
                            0 <= j2 < orchs.len() ==> !(#[trigger] orchs@[j2]@ == o@ && kinds@[j2]
                                == k),
                        found matches Some(f) ==> f < orchs.len() && orchs@[f as int]@ == o@
                            && kinds@[f as int] == k,
                    decreases orchs.len() - j,
                {
                    if kinds[j] == k && str_equal(orchs[j].as_str(), o.as_str()) {
                        found = Some(j);
                        break;
                    }
                    j += 1;
                }
                let ghost old_orchs = orchs@;
                let ghost old_kinds = kinds@;
                let ghost old_positions = positions@;
                match found {
                    Some(j) => {
                        let mut m = positions.remove(j);
                        m.push(pos);
                        positions.insert(j, m);
                        proof {
                            assert(positions@ =~= old_positions.update(j as int, m));
                            assert(orchs@[j as int]@ == o@ && kinds@[j as int] == k);
                            let upto = pos + 1;
                            assert forall|j1: int, a: int|
                                0 <= j1 < positions@.len() && 0 <= a < positions@[j1]@.len() implies {
                                let q = (#[trigger] positions@[j1]@[a]) as int;
                                &&& q < upto
                                &&& in_group(t@, order@[q] as int, orchs@[j1]@, kinds@[j1])
                            } by {
                                if j1 == j as int && a == positions@[j1]@.len() - 1 {
                                } else if j1 == j as int {
                                    assert(positions@[j1]@[a] == old_positions[j1]@[a]);
                                }
                            }
                            assert forall|j1: int, a: int, b: int|
                                0 <= j1 < positions@.len() && 0 <= a < b
                                    < positions@[j1]@.len() implies #[trigger] positions@[j1]@[a]
                                < #[trigger] positions@[j1]@[b] by {
                                if j1 == j as int {
                                    assert(positions@[j1]@[a] == old_positions[j1]@[a]);
                                    assert(old_positions[j1]@[a] < pos);
                                    if b < positions@[j1]@.len() - 1 {
                                        assert(positions@[j1]@[b] == old_positions[j1]@[b]);
                                    }
                                }
                            }
                            assert forall|j1: int, q: int|
                                0 <= j1 < positions@.len() && 0 <= q < upto && in_group(
                                    t@,
                                    #[trigger] order@[q] as int,
                                    orchs@[j1]@,
                                    kinds@[j1],
                                ) implies has_index(#[trigger] positions@[j1]@, q) by {
                                if q == pos as int {
                                    if j1 != j as int {
                                        assert(!(orchs@[j1]@ == orchs@[j as int]@ && kinds@[j1]
                                            == kinds@[j as int]));
                                    } else {
                                        assert(positions@[j1]@[positions@[j1]@.len() - 1] == pos);
                                    }
                                } else if j1 == j as int {
                                    assert(has_index(old_positions[j1]@, q));
                                    let a = choose|a: int|
                                        0 <= a < old_positions[j1]@.len() && old_positions[j1]@[a]
                                            as int == q;
                                    assert(positions@[j1]@[a] == old_positions[j1]@[a]);
                                } else {
                                    assert(has_index(old_positions[j1]@, q));
                                }
                            }
                            assert forall|q: int|
                                0 <= q < upto && viewable(t@, #[trigger] order@[q] as int) implies exists|
                                j1: int,
                            |
                                0 <= j1 < orchs@.len() && has_key(
                                    t@,
                                    order@[q] as int,
                                    #[trigger] orchs@[j1]@,
                                    kinds@[j1],
                                ) by {
                                if q == pos as int {
                                    assert(has_key(t@, order@[q] as int, orchs@[j as int]@, kinds@[j as int]));
                                }
                            }
                        }
                    },
                    None => {
                        let oc = o.clone();
                        orchs.push(oc);
                        kinds.push(k);
                        let mut m: Vec<usize> = Vec::new();
                        m.push(pos);
                        positions.push(m);
                        proof {
                            let g = old_orchs.len();
                            let upto = pos + 1;
                            assert(orchs@[g as int]@ == o@);
                            assert forall|j1: int, j2: int|
                                0 <= j1 < j2 < orchs@.len() implies !(#[trigger] orchs@[j1]@
                                == #[trigger] orchs@[j2]@ && kinds@[j1] == kinds@[j2]) by {
                                if j2 == g as int {
                                    assert(!(old_orchs[j1]@ == o@ && old_kinds[j1] == k));
                                }
                            }
                            assert forall|j1: int, a: int|
                                0 <= j1 < positions@.len() && 0 <= a < positions@[j1]@.len() implies {
                                let q = (#[trigger] positions@[j1]@[a]) as int;
                                &&& q < upto
                                &&& in_group(t@, order@[q] as int, orchs@[j1]@, kinds@[j1])
                            } by {
                                if j1 < g {
                                    assert(positions@[j1] == old_positions[j1]);
                                }
                            }
                            assert forall|j1: int, q: int|
                                0 <= j1 < positions@.len() && 0 <= q < upto && in_group(
                                    t@,
                                    #[trigger] order@[q] as int,
                                    orchs@[j1]@,
                                    kinds@[j1],
                                ) implies has_index(#[trigger] positions@[j1]@, q) by {
                                if j1 == g as int {
                                    if q < pos {
                                        assert(has_key(t@, order@[q] as int, orchs@[j1]@, kinds@[j1]));
                                        assert(viewable(t@, order@[q] as int));
                                        let jw = choose|jw: int|
                                            0 <= jw < old_orchs.len() && has_key(
                                                t@,
                                                order@[q] as int,
                                                #[trigger] old_orchs[jw]@,
                                                old_kinds[jw],
                                            );
                                        assert(!(old_orchs[jw]@ == o@ && old_kinds[jw] == k));
                                    } else {
                                        assert(positions@[j1]@[0] == pos);
                                    }
                                } else {
                                    assert(positions@[j1] == old_positions[j1]);
                                    if q == pos as int {
                                        assert(!(old_orchs[j1]@ == o@ && old_kinds[j1] == k));
                                    } else {
                                        assert(has_index(old_positions[j1]@, q));
                                    }
                                }
                            }
                            assert forall|q: int|
                                0 <= q < upto && viewable(t@, #[trigger] order@[q] as int) implies exists|
                                j1: int,
                            |
                                0 <= j1 < orchs@.len() && has_key(
                                    t@,
                                    order@[q] as int,
                                    #[trigger] orchs@[j1]@,
                                    kinds@[j1],
                                ) by {
                                if q == pos as int {
                                    assert(has_key(t@, order@[q] as int, orchs@[g as int]@, kinds@[g as int]));
                                } else {
                                    let jw = choose|jw: int|
                                        0 <= jw < old_orchs.len() && has_key(
                                            t@,
                                            order@[q] as int,
                                            #[trigger] old_orchs[jw]@,
                                            old_kinds[jw],
                                        );
                                    assert(orchs@[jw] == old_orchs[jw]);
                                }
                            }
                        }
                    },
                }
            },
            _ => {
                proof {
                    assert(!viewable(t@, i as int));
                    assert forall|j1: int, q: int|
                        0 <= j1 < positions@.len() && 0 <= q < pos + 1 && in_group(
                            t@,
                            #[trigger] order@[q] as int,
                            orchs@[j1]@,
                            kinds@[j1],
                        ) implies has_index(#[trigger] positions@[j1]@, q) by {
                        if q == pos as int {
                            assert(!in_group(t@, i as int, orchs@[j1]@, kinds@[j1]));
                        }
                    }
                }
            },
        }
        pos += 1;
    }
    (orchs, kinds, positions)
}


spec fn gkey(latest: Seq<i64>, orchs: Seq<String>, kinds: Seq<bool>, j: int) -> (int, Seq<char>, bool) {
    (latest[j] as int, orchs[j]@, kinds[j])
}

fn group_less(latest: &Vec<i64>, orchs: &Vec<String>, kinds: &Vec<bool>, a: usize, b: usize) -> (r:
    bool)
    requires
        a < latest.len(),
        b < latest.len(),
        latest.len() == orchs.len(),
        orchs.len() == kinds.len(),
    ensures
        r == key_less(gkey(latest@, orchs@, kinds@, a as int), gkey(latest@, orchs@, kinds@, b as int)),
{
    if latest[a] < latest[b] {
        return true;
    }
    if latest[a] > latest[b] {
        return false;
    }
    if str_less(orchs[a].as_str(), orchs[b].as_str()) {
        return true;
    }
    !kinds[a] && kinds[b] && str_equal(orchs[a].as_str(), orchs[b].as_str())
}

/// Group indices `0..g` in message order.
fn order_groups(latest: &Vec<i64>, orchs: &Vec<String>, kinds: &Vec<bool>) -> (r: Vec<usize>)
    requires
        latest.len() == orchs.len(),
        orchs.len() == kinds.len(),
        forall|j1: int, j2: int|
            0 <= j1 < j2 < orchs.len() ==> !(#[trigger] orchs@[j1]@ == #[trigger] orchs@[j2]@
                && kinds@[j1] == kinds@[j2]),
    ensures
        r.len() == orchs.len(),
        forall|p: int| 0 <= p < r.len() ==> #[trigger] r@[p] < orchs.len(),
        forall|p: int, q: int|
            0 <= p < q < r.len() ==> key_less(
                gkey(latest@, orchs@, kinds@, #[trigger] r@[p] as int),
                gkey(latest@, orchs@, kinds@, #[trigger] r@[q] as int),
            ),
        forall|j: int| 0 <= j < orchs.len() ==> #[trigger] has_index(r@, j),
{
    let g = orchs.len();
    let mut r: Vec<usize> = Vec::new();
    let mut j: usize = 0;
    while j < g
        invariant
            j <= g,
            g == orchs.len(),
            latest.len() == orchs.len(),
            orchs.len() == kinds.len(),
            forall|j1: int, j2: int|
                0 <= j1 < j2 < orchs.len() ==> !(#[trigger] orchs@[j1]@ == #[trigger] orchs@[j2]@
                    && kinds@[j1] == kinds@[j2]),
            r.len() == j,
            forall|p: int| 0 <= p < r.len() ==> #[trigger] r@[p] < j,
            forall|p: int, q: int|
                0 <= p < q < r.len() ==> key_less(
                    gkey(latest@, orchs@, kinds@, #[trigger] r@[p] as int),
                    gkey(latest@, orchs@, kinds@, #[trigger] r@[q] as int),
                ),
            forall|x: int| 0 <= x < j ==> #[trigger] has_index(r@, x),
        decreases g - j,
    {
        let mut p: usize = 0;
        while p < r.len() && group_less(latest, orchs, kinds, r[p], j)
            invariant
                p <= r.len(),
                r.len() == j,
                j < g,
                g == orchs.len(),
                latest.len() == orchs.len(),
                orchs.len() == kinds.len(),
                forall|q: int| 0 <= q < r.len() ==> #[trigger] r@[q] < j,
                forall|q: int|
                    0 <= q < p ==> key_less(
                        gkey(latest@, orchs@, kinds@, #[trigger] r@[q] as int),
                        gkey(latest@, orchs@, kinds@, j as int),
                    ),
            decreases r.len() - p,
        {
            p += 1;
        }
        let ghost old_r = r@;
        let ghost kj = gkey(latest@, orchs@, kinds@, j as int);
        proof {
            if p < old_r.len() {
                let e = old_r[p as int] as int;
                let ke = gkey(latest@, orchs@, kinds@, e);
                assert(e < j);
                assert(!(orchs@[e]@ == orchs@[j as int]@ && kinds@[e] == kinds@[j as int]));
                key_less_total(ke, kj);
                assert forall|q: int| p < q < old_r.len() implies key_less(
                    kj,
                    gkey(latest@, orchs@, kinds@, #[trigger] old_r[q] as int),
                ) by {
                    key_less_transitive(kj, ke, gkey(latest@, orchs@, kinds@, old_r[q] as int));
                }
            }
        }
        r.insert(p, j);
        proof {
            assert(r@ =~= old_r.insert(p as int, j));
            assert forall|a: int, b: int| 0 <= a < b < r.len() implies key_less(
                gkey(latest@, orchs@, kinds@, #[trigger] r@[a] as int),
                gkey(latest@, orchs@, kinds@, #[trigger] r@[b] as int),
            ) by {
                if b < p {
                    assert(r@[a] == old_r[a] && r@[b] == old_r[b]);
                } else if b == p {
                    assert(r@[a] == old_r[a]);
                } else if a == p {
                    assert(r@[b] == old_r[b - 1]);
                } else if a < p {
                    assert(r@[a] == old_r[a] && r@[b] == old_r[b - 1]);
                } else {
                    assert(r@[a] == old_r[a - 1] && r@[b] == old_r[b - 1]);
                }
            }
            assert forall|x: int| 0 <= x < j + 1 implies #[trigger] has_index(r@, x) by {
                if x == j {
                    assert(r@[p as int] == j);
                } else {
                    assert(has_index(old_r, x));
                    let q = choose|q: int| 0 <= q < old_r.len() && old_r[q] as int == x;
                    if q < p {
                        assert(r@[q] == old_r[q]);
                    } else {
                        assert(r@[q + 1] == old_r[q]);
                    }
                }
            }
        }
        j += 1;
    }
    r
}

/// Plan one digest run: which messages to post, in which order, and which
/// tickets each one covers.
pub fn plan_digest(t: &Vec<DigestTicket>) -> (r: Vec<DigestJob>)
    ensures
        forall|a: int| 0 <= a < r.len() ==> job_fits(t@, #[trigger] r@[a]),
        forall|a: int, b: int|
            0 <= a < b < r.len() ==> key_less(job_key(#[trigger] r@[a]), job_key(#[trigger] r@[b])),
        forall|i: int|
            viewable(t@, i) ==> exists|a: int|
                0 <= a < r.len() && has_key(
                    t@,
                    i,
                    (#[trigger] r@[a]).orch_address@,
                    r@[a].is_ai,
                ),
{
    let order = time_order(t);
    let (orchs, kinds, positions) = group_tickets(t, &order);
    let g = orchs.len();
    let mut latest: Vec<i64> = Vec::new();
    let mut k: usize = 0;
    while k < g
        invariant
            k <= g,
            g == orchs.len(),
            groups_inv(t@, order@, orchs@, kinds@, positions@, order.len() as int),
            order.len() == t.len(),
            forall|p: int| 0 <= p < order.len() ==> #[trigger] order@[p] < t.len(),
            latest.len() == k,
            forall|j: int|
                0 <= j < k ==> #[trigger] latest@[j] == t@[order@[positions@[j]@.last() as int] as int].block_timestamp,
        decreases g - k,
    {
        let m = &positions[k];
        let last = m[m.len() - 1];
        latest.push(t[order[last]].block_timestamp);
        k += 1;
    }
    let gorder = order_groups(&latest, &orchs, &kinds);
    let mut jobs: Vec<DigestJob> = Vec::new();
    let mut a: usize = 0;
    while a < g
        invariant
            a <= g,
            g == orchs.len(),
            g == latest.len(),
            groups_inv(t@, order@, orchs@, kinds@, positions@, order.len() as int),
            order.len() == t.len(),
            forall|p: int| 0 <= p < order.len() ==> #[trigger] order@[p] < t.len(),
            forall|p: int, q: int|
                0 <= p < q < order.len() ==> ticket_before(
                    t@,
                    #[trigger] order@[p] as int,
                    #[trigger] order@[q] as int,
                ),
            forall|i: int| 0 <= i < t.len() ==> #[trigger] has_index(order@, i),
            forall|j: int|
                0 <= j < g ==> #[trigger] latest@[j] == t@[order@[positions@[j]@.last() as int] as int].block_timestamp,
            gorder.len() == g,
            forall|p: int| 0 <= p < gorder.len() ==> #[trigger] gorder@[p] < g,
            forall|p: int, q: int|
                0 <= p < q < gorder.len() ==> key_less(
                    gkey(latest@, orchs@, kinds@, #[trigger] gorder@[p] as int),
                    gkey(latest@, orchs@, kinds@, #[trigger] gorder@[q] as int),
                ),
            forall|j: int| 0 <= j < g ==> #[trigger] has_index(gorder@, j),
            jobs.len() == a,
            forall|b: int|
                0 <= b < a ==> {
                    let j = gorder@[b] as int;
                    &&& (#[trigger] jobs@[b]).orch_address@ == orchs@[j]@
                    &&& jobs@[b].is_ai == kinds@[j]
                    &&& jobs@[b].latest_ts == latest@[j]
                    &&& job_fits(t@, jobs@[b])
                },
        decreases g - a,
    {
        let j = gorder[a];
        let m = &positions[j];
        let mut tickets: Vec<usize> = Vec::new();
        let mut b: usize = 0;
        while b < m.len()
            invariant
                b <= m.len(),
                j < g,
                g == orchs.len(),
                m == positions@[j as int],
                groups_inv(t@, order@, orchs@, kinds@, positions@, order.len() as int),
                order.len() == t.len(),
                tickets.len() == b,
                forall|c: int| 0 <= c < b ==> #[trigger] tickets@[c] == order@[m@[c] as int],
            decreases m.len() - b,
        {
            tickets.push(order[m[b]]);
            b += 1;
        }
        let mut other = false;
        let mut c: usize = 0;
        while c < g
            invariant
                c <= g,
                g == orchs.len(),
                j < g,
                orchs.len() == kinds.len(),
                other == exists|c2: int|
                    0 <= c2 < c && c2 != j && #[trigger] orchs@[c2]@ == orchs@[j as int]@,
            decreases g - c,
        {
            if c != j && str_equal(orchs[c].as_str(), orchs[j].as_str()) {
                other = true;
            }
            c += 1;
        }
        let single = tickets.len() == 1 && !other;
        let oc = orchs[j].clone();
        let job = DigestJob {
            orch_address: oc,
            latest_ts: latest[j],
            is_ai: kinds[j],
            single,
            tickets,
        };
        proof {
            let o = orchs@[j as int]@;
            let kk = kinds@[j as int];
            let s = job.tickets@;
            let ms = positions@[j as int]@;
            assert(s.len() > 0);
            assert forall|x: int| 0 <= x < s.len() implies in_group(t@, #[trigger] s[x] as int, o, kk) by {
                assert(s[x] == order@[ms[x] as int]);
            }
            assert forall|x: int, y: int|
                0 <= x < y < s.len() implies ticket_before(t@, #[trigger] s[x] as int, #[trigger] s[y] as int) by {
                assert(ms[x] < ms[y]);
                assert(s[x] == order@[ms[x] as int] && s[y] == order@[ms[y] as int]);
            }
            assert forall|i: int| #[trigger] in_group(t@, i, o, kk) implies has_index(s, i) by {
                assert(has_index(order@, i));
                let q = choose|q: int| 0 <= q < order@.len() && order@[q] as int == i;
                assert(in_group(t@, order@[q] as int, orchs@[j as int]@, kinds@[j as int]));
                assert(has_index(positions@[j as int]@, q));
                let x = choose|x: int| 0 <= x < ms.len() && ms[x] as int == q;
                assert(s[x] == order@[ms[x] as int]);
            }
            assert(s.last() == order@[ms.last() as int]);
            if single {
                assert forall|i: int| !#[trigger] in_other_group(t@, i, o, kk) by {
                    if in_other_group(t@, i, o, kk) {
                        assert(has_index(order@, i));
                        let q = choose|q: int| 0 <= q < order@.len() && order@[q] as int == i;
                        assert(viewable(t@, order@[q] as int));
                        let jw = choose|jw: int|
                            0 <= jw < orchs@.len() && has_key(
                                t@,
                                order@[q] as int,
                                #[trigger] orchs@[jw]@,
                                kinds@[jw],
                            );
                        assert(orchs@[jw]@ == o);
                        assert(jw != j);
                    }
                }
            } else if s.len() == 1 {
                let c2 = choose|c2: int|
                    0 <= c2 < g && c2 != j && #[trigger] orchs@[c2]@ == orchs@[j as int]@;
                assert(!(orchs@[c2]@ == orchs@[j as int]@ && kinds@[c2] == kinds@[j as int]));
                let q = positions@[c2]@[0] as int;
                assert(in_group(t@, order@[q] as int, orchs@[c2]@, kinds@[c2]));
                assert(in_other_group(t@, order@[q] as int, o, kk));
            }
            assert(job.orch_address@ == o);
            assert(job.is_ai == kk);
            assert(job.tickets@ == s);
            assert(job.latest_ts == latest@[j as int]);
            assert(job.latest_ts == t@[s.last() as int].block_timestamp);
            assert(job.single == (s.len() == 1 && forall|i: int| !#[trigger] in_other_group(t@, i, o, kk)));
            assert(job_fits(t@, job));
        }
        jobs.push(job);
        a += 1;
    }
    proof {
        assert forall|x: int, y: int|
            0 <= x < y < jobs.len() implies key_less(job_key(#[trigger] jobs@[x]), job_key(#[trigger] jobs@[y])) by {
            assert(job_key(jobs@[x]) == gkey(latest@, orchs@, kinds@, gorder@[x] as int));
            assert(job_key(jobs@[y]) == gkey(latest@, orchs@, kinds@, gorder@[y] as int));
        }
        assert forall|i: int| viewable(t@, i) implies exists|x: int|
            0 <= x < jobs.len() && has_key(
                t@,
                i,
                (#[trigger] jobs@[x]).orch_address@,
                jobs@[x].is_ai,
            ) by {
            assert(has_index(order@, i));
            let q = choose|q: int| 0 <= q < order@.len() && order@[q] as int == i;
            assert(viewable(t@, order@[q] as int));
            let jw = choose|jw: int|
                0 <= jw < orchs@.len() && has_key(
                    t@,
                    order@[q] as int,
                    #[trigger] orchs@[jw]@,
                    kinds@[jw],
                );
            assert(has_index(gorder@, jw));
            let x = choose|x: int| 0 <= x < gorder@.len() && gorder@[x] as int == jw;
            assert(has_key(t@, i, jobs@[x].orch_address@, jobs@[x].is_ai));
        }
    }
    jobs
}

} // verus!
