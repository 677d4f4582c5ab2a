//! Types shared with the explorer API boundary and the helpers that sit
//! beside them.

use vstd::prelude::*;
use crate::links::{join_url, url_join_outcome};
use crate::text::str_equal;

verus! {

/// Period selector for the daily / weekly / monthly summary endpoints.
#[derive(Debug, Clone, Copy, PartialEq, Eq, Structural)]
pub enum Cadence {
    Daily,
    Weekly,
    Monthly,
}

impl Cadence {
    /// Path segment of the cadence in explorer and dashboard URLs.
    pub open spec fn path_text(self) -> Seq<char> {
        match self {
            Cadence::Daily => "daily"@,
            Cadence::Weekly => "weekly"@,
            Cadence::Monthly => "monthly"@,
        }
    }

    /// Capitalised word used in summary titles.
    pub open spec fn title_text(self) -> Seq<char> {
        match self {
            Cadence::Daily => "Daily"@,
            Cadence::Weekly => "Weekly"@,
            Cadence::Monthly => "Monthly"@,
        }
    }

    pub fn as_path(&self) -> (s: &'static str)
        ensures
            s@ == self.path_text(),
    {
        match self {
            Cadence::Daily => "daily",
            Cadence::Weekly => "weekly",
            Cadence::Monthly => "monthly",
        }
    }

    pub fn title_word(&self) -> (s: &'static str)
        ensures
            s@ == self.title_text(),
    {
        match self {
            Cadence::Daily => "Daily",
            Cadence::Weekly => "Weekly",
            Cadence::Monthly => "Monthly",
        }
    }
}

/// The fields of an explorer gateway profile that the bot reads.
pub struct GatewayProfileRow {
    pub address: String,
    /// `"ai"` for AI gateways; anything else is transcoding.
    pub kind: String,
}

/// Questions asked of a gateway profile.
pub trait GatewayProfileRowExt {
    fn is_ai(&self) -> bool;
}

impl GatewayProfileRowExt for GatewayProfileRow {
    /// Whether the gateway runs AI jobs.
    fn is_ai(&self) -> (b: bool)
        ensures
            b == (self.kind@ == "ai"@),
    {
        str_equal(self.kind.as_str(), "ai")
    }
}

/// How settled a valuation's pricing is: fully priced above priced with a
/// warning above anything else.
pub open spec fn status_rank_of(status: Seq<char>) -> u8 {
    if status == "priced"@ {
        3
    } else if status == "priced_with_warning"@ {
        2
    } else {
        1
    }
}

/// How settled a valuation's pricing is.
pub fn status_rank(status: &str) -> (r: u8)
    ensures
        r == status_rank_of(status@),
{
    if str_equal(status, "priced") {
        3
    } else if str_equal(status, "priced_with_warning") {
        2
    } else {
        1
    }
}

/// What decides between the valuations of one event: the pricing status,
/// then whether a positive USD amount is known, then whether a positive
/// native-token price is known.
pub struct ValuationKey {
    pub status: String,
    pub amount_usd_positive: bool,
    pub native_usd_price_positive: bool,
}

/// The ranking tuple of a valuation key, compared lexicographically.
pub open spec fn valuation_rank(k: ValuationKey) -> (int, int, int) {
    (
        status_rank_of(k.status@) as int,
        if k.amount_usd_positive { 1int } else { 0int },
        if k.native_usd_price_positive { 1int } else { 0int },
    )
}

/// Lexicographic `<` on ranking tuples.
pub open spec fn rank_less(a: (int, int, int), b: (int, int, int)) -> bool {
    a.0 < b.0 || (a.0 == b.0 && (a.1 < b.1 || (a.1 == b.1 && a.2 < b.2)))
}

fn rank_tuple(k: &ValuationKey) -> (r: (u8, bool, bool))
    ensures
        r.0 == valuation_rank(*k).0,
        (if r.1 { 1int } else { 0int }) == valuation_rank(*k).1,
        (if r.2 { 1int } else { 0int }) == valuation_rank(*k).2,
{
    (status_rank(k.status.as_str()), k.amount_usd_positive, k.native_usd_price_positive)
}

/// The valuation to show among several for one event: the one with the
/// highest rank, and among equally ranked ones the last. `None` when there
/// is none.
pub fn preferred_valuation(valuations: &[ValuationKey]) -> (r: Option<usize>)
    ensures
        r is None <==> valuations@.len() == 0,
        r matches Some(i) ==> {
            &&& i < valuations@.len()
            &&& forall|j: int|
                0 <= j < i ==> !rank_less(
                    valuation_rank(valuations@[i as int]),
                    valuation_rank(#[trigger] valuations@[j]),
                )
            &&& forall|j: int|
                i < j < valuations@.len() ==> rank_less(
                    valuation_rank(#[trigger] valuations@[j]),
                    valuation_rank(valuations@[i as int]),
                )
        },
{
    if valuations.len() == 0 {
        return None;
    }
    let mut best: usize = 0;
    let mut best_rank = rank_tuple(&valuations[0]);
    let mut k: usize = 1;
    while k < valuations.len()
        invariant
            1 <= k <= valuations@.len(),
            best < k,
            best_rank.0 == valuation_rank(valuations@[best as int]).0,
            (if best_rank.1 { 1int } else { 0int }) == valuation_rank(valuations@[best as int]).1,
            (if best_rank.2 { 1int } else { 0int }) == valuation_rank(valuations@[best as int]).2,
            forall|j: int|
                0 <= j < best ==> !rank_less(
                    valuation_rank(valuations@[best as int]),
                    valuation_rank(#[trigger] valuations@[j]),
                ),
            forall|j: int|
                best < j < k ==> rank_less(
                    valuation_rank(#[trigger] valuations@[j]),
                    valuation_rank(valuations@[best as int]),
                ),
        decreases valuations@.len() - k,
    {
        let cand = rank_tuple(&valuations[k]);
        let below = cand.0 < best_rank.0 || (cand.0 == best_rank.0 && ((!cand.1 && best_rank.1) || (
        cand.1 == best_rank.1 && (!cand.2 && best_rank.2))));
        if !below {
            best = k;
            best_rank = cand;
        }
        k += 1;
    }
    Some(best)
}

/// Makes an avatar URL absolute. A root-relative path (as the explorer
/// serves its cached avatars) is joined onto the explorer's base URL,
/// falling back to the path itself if the join fails; any other value is
/// left as it is.
pub fn absolutize_avatar(base: &str, raw: Option<String>) -> (r: Option<String>)
    ensures
        match raw {
            None => r is None,
            Some(p) => r matches Some(out) && out@ == if p@.len() > 0 && p@[0] == '/' {
                match url_join_outcome(base@, p@) {
                    Some(joined) => joined,
                    None => p@,
                }
            } else {
                p@
            },
        },
{
    match raw {
        None => None,
        Some(p) => {
            let chars = crate::text::chars_of(p.as_str());
            if chars.len() > 0 && chars[0] == '/' {
                match join_url(base, p.as_str()) {
                    Some(joined) => Some(joined),
                    None => Some(p),
                }
            } else {
                Some(p)
            }
        },
    }
}

} // verus!
