//! Texts of the direct messages sent to subscribers. Amounts arrive
//! already formatted (`{:.4}` LPT, `{:.2}` USD, `{:.2}%`), as the caller
//! computes them from the explorer's decimal strings.

use vstd::prelude::*;
use vstd::string::*;
use crate::commands::{short_addr, short_addr_cuttable, short_addr_text};
use crate::ingest::DelegatorDigest;
use crate::text::{decimal, i64_text, signed_decimal, u64_text};

verus! {

/// The name shown for an orchestrator: its display name, else its address.
pub open spec fn orch_name(display_name: Option<String>, addr: Seq<char>) -> Seq<char> {
    match display_name {
        Some(n) => n@,
        None => addr,
    }
}

/// The linked orchestrator name that opens each message.
pub open spec fn orch_link(display_name: Option<String>, addr: Seq<char>) -> Seq<char> {
    "[**"@ + orch_name(display_name, addr) + "**](https://tools.livepeer.cloud/orchestrator/"@ + addr
        + ")"@
}

fn push_orch_link(out: &mut String, display_name: &Option<String>, addr: &str)
    ensures
        final(out)@ == old(out)@ + orch_link(*display_name, addr@),
{
    let ghost start = out@;
    out.append("[**");
    match display_name {
        Some(n) => out.append(n.as_str()),
        None => out.append(addr),
    }
    out.append("**](https://tools.livepeer.cloud/orchestrator/");
    out.append(addr);
    out.append(")");
    assert(out@ =~= start + orch_link(*display_name, addr@));
}

/// The description of a reward DM. `usd` is shown only when given (the
/// caller gives it when the USD amount is positive).
pub open spec fn reward_dm_text(
    display_name: Option<String>,
    addr: Seq<char>,
    lpt: Seq<char>,
    usd: Option<String>,
    tx_hash: Seq<char>,
) -> Seq<char> {
    orch_link(display_name, addr) + " earned **"@ + lpt + " LPT**"@ + (match usd {
        Some(u) => " (~$"@ + u@ + ")"@,
        None => Seq::empty(),
    }) + " in inflation rewards.\n\n"@ + "[View transaction](https://arbiscan.io/tx/"@ + tx_hash
        + ")"@
}

/// The description of a reward DM.
pub fn reward_dm_description(
    display_name: &Option<String>,
    addr: &str,
    lpt: &str,
    usd: &Option<String>,
    tx_hash: &str,
) -> (s: String)
    ensures
        s@ == reward_dm_text(*display_name, addr@, lpt@, *usd, tx_hash@),
{
    let mut s = String::new();
    push_orch_link(&mut s, display_name, addr);
    s.append(" earned **");
    s.append(lpt);
    s.append(" LPT**");
    match usd {
        Some(u) => {
            s.append(" (~$");
            s.append(u.as_str());
            s.append(")");
        },
        None => {},
    }
    s.append(" in inflation rewards.\n\n");
    s.append("[View transaction](https://arbiscan.io/tx/");
    s.append(tx_hash);
    s.append(")");
    proof {
        assert(s@ =~= reward_dm_text(*display_name, addr@, lpt@, *usd, tx_hash@));
    }
    s
}

/// The description of a cut-change DM; the three cuts come as percent
/// texts.
pub open spec fn cut_change_dm_text(
    display_name: Option<String>,
    addr: Seq<char>,
    reward_cut: Seq<char>,
    fee_share: Seq<char>,
    fee_cut: Seq<char>,
    tx_hash: Seq<char>,
) -> Seq<char> {
    orch_link(display_name, addr) + " updated its cuts:\n\nReward cut: **"@ + reward_cut
        + "** (orchestrator)\nFee Share: **"@ + fee_share + "** (delegators)\nFee Cut: **"@ + fee_cut
        + "** (orchestrator)\n\n[View transaction](https://arbiscan.io/tx/"@ + tx_hash + ")"@
}

/// The description of a cut-change DM.
pub fn cut_change_dm_description(
    display_name: &Option<String>,
    addr: &str,
    reward_cut: &str,
    fee_share: &str,
    fee_cut: &str,
    tx_hash: &str,
) -> (s: String)
    ensures
        s@ == cut_change_dm_text(*display_name, addr@, reward_cut@, fee_share@, fee_cut@, tx_hash@),
{
    let mut s = String::new();
    push_orch_link(&mut s, display_name, addr);
    s.append(" updated its cuts:\n\nReward cut: **");
    s.append(reward_cut);
    s.append("** (orchestrator)\nFee Share: **");
    s.append(fee_share);
    s.append("** (delegators)\nFee Cut: **");
    s.append(fee_cut);
    s.append("** (orchestrator)\n\n[View transaction](https://arbiscan.io/tx/");
    s.append(tx_hash);
    s.append(")");
    proof {
        assert(s@ =~= cut_change_dm_text(
            *display_name,
            addr@,
            reward_cut@,
            fee_share@,
            fee_cut@,
            tx_hash@,
        ));
    }
    s
}

/// One delegator event as the digest lists it.
pub struct DelegatorLine {
    pub delegator_address: String,
    pub tx_hash: String,
    /// The LPT amount, formatted.
    pub lpt: String,
}

/// The digest line of one event.
pub open spec fn delegator_line_text(l: DelegatorLine, verb: Seq<char>) -> Seq<char> {
    "• [`"@ + short_addr_text(l.delegator_address@) + "`](https://arbiscan.io/tx/"@ + l.tx_hash@
        + ") "@ + verb + " **"@ + l.lpt@ + " LPT**\n"@
}

/// The lines of the events at `positions`, in order.
pub open spec fn section_lines(
    lines: Seq<DelegatorLine>,
    positions: Seq<usize>,
    verb: Seq<char>,
) -> Seq<char>
    decreases positions.len(),
{
    if positions.len() == 0 {
        Seq::empty()
    } else {
        section_lines(lines, positions.drop_last(), verb) + delegator_line_text(
            lines[positions.last() as int],
            verb,
        )
    }
}

/// One section of the digest: a heading with the count, then the lines; an
/// empty section is left out.
pub open spec fn section_text(
    lines: Seq<DelegatorLine>,
    positions: Seq<usize>,
    heading: Seq<char>,
    verb: Seq<char>,
) -> Seq<char> {
    if positions.len() == 0 {
        Seq::empty()
    } else {
        "\n**"@ + heading + " ("@ + decimal(positions.len()) + ")**\n"@ + section_lines(
            lines,
            positions,
            verb,
        )
    }
}

/// Every position names an event whose address can be shortened.
pub open spec fn positions_valid(lines: Seq<DelegatorLine>, positions: Seq<usize>) -> bool {
    forall|k: int|
        0 <= k < positions.len() ==> #[trigger] positions[k] < lines.len() && short_addr_cuttable(
            lines[positions[k] as int].delegator_address@,
        )
}

/// The description of the delegator digest of one orchestrator.
pub open spec fn delegator_digest_text(
    display_name: Option<String>,
    addr: Seq<char>,
    lines: Seq<DelegatorLine>,
    digest: DelegatorDigest,
) -> Seq<char> {
    orch_link(display_name, addr) + " had delegator activity:\n"@ + section_text(
        lines,
        digest.new_bonds@,
        "New delegators"@,
        "bonded"@,
    ) + section_text(lines, digest.stake_change_bonds@, "Stake increases"@, "added"@)
        + section_text(lines, digest.unbonds@, "Unbonds"@, "unbonded"@) + section_text(
        lines,
        digest.rebonds@,
        "Rebonds"@,
        "rebonded"@,
    )
}

fn push_section(
    out: &mut String,
    lines: &Vec<DelegatorLine>,
    positions: &Vec<usize>,
    heading: &str,
    verb: &str,
)
    requires
        positions_valid(lines@, positions@),
    ensures
        final(out)@ == old(out)@ + section_text(lines@, positions@, heading@, verb@),
{
    if positions.len() == 0 {
        assert(old(out)@ + section_text(lines@, positions@, heading@, verb@) =~= old(out)@);
        return;
    }
    let ghost start = out@;
    out.append("\n**");
    out.append(heading);
    out.append(" (");
    let n = u64_text(positions.len() as u64);
    out.append(n.as_str());
    out.append(")**\n");
    let ghost head = out@;
    let mut k: usize = 0;
    assert(positions@.take(0) =~= Seq::<usize>::empty());
    while k < positions.len()
        invariant
            k <= positions@.len(),
            positions_valid(lines@, positions@),
            out@ == head + section_lines(lines@, positions@.take(k as int), verb@),
        decreases positions@.len() - k,
    {
        let p = positions[k];
        let line = &lines[p];
        let ghost before = out@;
        out.append("• [`");
        let short = short_addr(line.delegator_address.as_str());
        out.append(short.as_str());
        out.append("`](https://arbiscan.io/tx/");
        out.append(line.tx_hash.as_str());
        out.append(") ");
        out.append(verb);
        out.append(" **");
        out.append(line.lpt.as_str());
        out.append(" LPT**\n");
        proof {
            let t = positions@.take(k + 1);
            assert(t.drop_last() =~= positions@.take(k as int));
            assert(t.last() == p);
            assert(out@ =~= before + delegator_line_text(lines@[p as int], verb@));
        }
        k += 1;
    }
    assert(positions@.take(positions.len() as int) =~= positions@);
    assert(out@ =~= start + section_text(lines@, positions@, heading@, verb@));
}

/// The description of the delegator digest of one orchestrator: a section
/// each for new delegators, stake increases, unbonds and rebonds.
pub fn delegator_digest_description(
    display_name: &Option<String>,
    addr: &str,
    lines: &Vec<DelegatorLine>,
    digest: &DelegatorDigest,
) -> (s: String)
    requires
        positions_valid(lines@, digest.new_bonds@),
        positions_valid(lines@, digest.stake_change_bonds@),
        positions_valid(lines@, digest.unbonds@),
        positions_valid(lines@, digest.rebonds@),
    ensures
        s@ == delegator_digest_text(*display_name, addr@, lines@, *digest),
{
    let mut s = String::new();
    push_orch_link(&mut s, display_name, addr);
    s.append(" had delegator activity:\n");
    push_section(&mut s, lines, &digest.new_bonds, "New delegators", "bonded");
    push_section(&mut s, lines, &digest.stake_change_bonds, "Stake increases", "added");
    push_section(&mut s, lines, &digest.unbonds, "Unbonds", "unbonded");
    push_section(&mut s, lines, &digest.rebonds, "Rebonds", "rebonded");
    proof {
        assert(s@ =~= delegator_digest_text(*display_name, addr@, lines@, *digest));
    }
    s
}

/// One event line names the shortened delegator, links the transaction,
/// and gives the verb and the amount.
pub proof fn delegator_line_shape(l: DelegatorLine, verb: Seq<char>)
    ensures
        delegator_line_text(l, verb) == "• [`"@ + short_addr_text(l.delegator_address@)
            + "`](https://arbiscan.io/tx/"@ + l.tx_hash@ + ") "@ + verb + " **"@ + l.lpt@
            + " LPT**\n"@,
{
}

/// The lines of a section: one line per position, in order, each with
/// the section's verb.
pub proof fn section_lines_one_per_event(lines: Seq<DelegatorLine>, ps: Seq<usize>, p: usize, verb: Seq<char>)
    ensures
        section_lines(lines, Seq::empty(), verb) == Seq::<char>::empty(),
        section_lines(lines, seq![p], verb) == delegator_line_text(lines[p as int], verb),
        section_lines(lines, ps.push(p), verb) == section_lines(lines, ps, verb) + delegator_line_text(
            lines[p as int],
            verb,
        ),
{
    reveal_with_fuel(section_lines, 2);
    assert(seq![p].drop_last() =~= Seq::<usize>::empty());
    assert(ps.push(p).drop_last() =~= ps);
    assert(Seq::<char>::empty() + delegator_line_text(lines[p as int], verb) =~= delegator_line_text(
        lines[p as int],
        verb,
    ));
}

/// A nonempty section opens with its heading and count.
proof fn section_opens_with_heading(
    opening: Seq<char>,
    lines: Seq<DelegatorLine>,
    positions: Seq<usize>,
    heading: Seq<char>,
    verb: Seq<char>,
)
    requires
        positions.len() > 0,
    ensures
        opening + section_text(lines, positions, heading, verb) == opening + "\n**"@ + heading + " ("@
            + decimal(positions.len()) + ")**\n"@ + section_lines(lines, positions, verb),
{
    assert(opening + section_text(lines, positions, heading, verb) =~= opening + "\n**"@ + heading
        + " ("@ + decimal(positions.len()) + ")**\n"@ + section_lines(lines, positions, verb));
}

/// A digest whose events are all of one kind has one section, under that
/// kind's heading and verb: new bonds under "New delegators" ("bonded"),
/// stake changes under "Stake increases" ("added"), unbonds under
/// "Unbonds" ("unbonded") and rebonds under "Rebonds" ("rebonded"). With
/// no event at all only the opening line remains.
pub proof fn digest_sections_carry_their_headings(
    display_name: Option<String>,
    addr: Seq<char>,
    lines: Seq<DelegatorLine>,
    d: DelegatorDigest,
)
    ensures
        ({
            let opening = orch_link(display_name, addr) + " had delegator activity:\n"@;
            let text = delegator_digest_text(display_name, addr, lines, d);
            &&& d.new_bonds@.len() == 0 && d.stake_change_bonds@.len() == 0 && d.unbonds@.len() == 0
                && d.rebonds@.len() == 0 ==> text == opening
            &&& d.new_bonds@.len() > 0 && d.stake_change_bonds@.len() == 0 && d.unbonds@.len() == 0
                && d.rebonds@.len() == 0 ==> text == opening + "\n**"@ + "New delegators"@ + " ("@
                + decimal(d.new_bonds@.len()) + ")**\n"@ + section_lines(lines, d.new_bonds@, "bonded"@)
            &&& d.new_bonds@.len() == 0 && d.stake_change_bonds@.len() > 0 && d.unbonds@.len() == 0
                && d.rebonds@.len() == 0 ==> text == opening + "\n**"@ + "Stake increases"@ + " ("@
                + decimal(d.stake_change_bonds@.len()) + ")**\n"@ + section_lines(
                lines,
                d.stake_change_bonds@,
                "added"@,
            )
            &&& d.new_bonds@.len() == 0 && d.stake_change_bonds@.len() == 0 && d.unbonds@.len() > 0
                && d.rebonds@.len() == 0 ==> text == opening + "\n**"@ + "Unbonds"@ + " ("@ + decimal(
                d.unbonds@.len(),
            ) + ")**\n"@ + section_lines(lines, d.unbonds@, "unbonded"@)
            &&& d.new_bonds@.len() == 0 && d.stake_change_bonds@.len() == 0 && d.unbonds@.len() == 0
                && d.rebonds@.len() > 0 ==> text == opening + "\n**"@ + "Rebonds"@ + " ("@ + decimal(
                d.rebonds@.len(),
            ) + ")**\n"@ + section_lines(lines, d.rebonds@, "rebonded"@)
        }),
{
    let opening = orch_link(display_name, addr) + " had delegator activity:\n"@;
    let e = Seq::<char>::empty();
    let a = section_text(lines, d.new_bonds@, "New delegators"@, "bonded"@);
    let b = section_text(lines, d.stake_change_bonds@, "Stake increases"@, "added"@);
    let c = section_text(lines, d.unbonds@, "Unbonds"@, "unbonded"@);
    let r = section_text(lines, d.rebonds@, "Rebonds"@, "rebonded"@);
    assert(delegator_digest_text(display_name, addr, lines, d) == opening + a + b + c + r);
    if d.new_bonds@.len() == 0 {
        assert(a =~= e);
    } else {
        section_opens_with_heading(opening, lines, d.new_bonds@, "New delegators"@, "bonded"@);
    }
    if d.stake_change_bonds@.len() == 0 {
        assert(b =~= e);
    } else {
        section_opens_with_heading(opening, lines, d.stake_change_bonds@, "Stake increases"@, "added"@);
    }
    if d.unbonds@.len() == 0 {
        assert(c =~= e);
    } else {
        section_opens_with_heading(opening, lines, d.unbonds@, "Unbonds"@, "unbonded"@);
    }
    if d.rebonds@.len() == 0 {
        assert(r =~= e);
    } else {
        section_opens_with_heading(opening, lines, d.rebonds@, "Rebonds"@, "rebonded"@);
    }
    assert(opening + e + e + e + e =~= opening);
    assert(opening + a + e + e + e =~= opening + a);
    assert(opening + e + b + e + e =~= opening + b);
    assert(opening + e + e + c + e =~= opening + c);
    assert(opening + e + e + e + r =~= opening + r);
}

/// A remaining time as `{h}h {m}m`, or `{m}m` under an hour.
pub open spec fn remaining_spec(secs: u64) -> Seq<char> {
    let h = secs / 3600;
    let m = (secs % 3600) / 60;
    if h == 0 {
        decimal(m as nat) + "m"@
    } else {
        decimal(h as nat) + "h "@ + decimal(m as nat) + "m"@
    }
}

/// A remaining time as `{h}h {m}m`, or `{m}m` under an hour.
pub fn remaining_text(secs: u64) -> (s: String)
    ensures
        s@ == remaining_spec(secs),
{
    let h = secs / 3600;
    let m = (secs % 3600) / 60;
    let mut s = String::new();
    if h > 0 {
        let ht = u64_text(h);
        s.append(ht.as_str());
        s.append("h ");
    }
    let mt = u64_text(m);
    s.append(mt.as_str());
    s.append("m");
    proof {
        assert(s@ =~= remaining_spec(secs));
    }
    s
}

/// The description of the DM sent while an orchestrator has not called
/// reward: the round, its estimated progress (`elapsed_pct` formatted as a
/// whole percent) and the time left.
pub open spec fn reward_pending_text(
    display_name: Option<String>,
    addr: Seq<char>,
    round: i64,
    est_block: u64,
    round_length_blocks: u64,
    elapsed_pct: Seq<char>,
    remaining_secs: u64,
) -> Seq<char> {
    orch_link(display_name, addr) + " has **not called reward** for round **"@ + signed_decimal(
        round as int,
    ) + "** yet.\n\nRound progress: block ~**"@ + decimal(est_block as nat) + " of "@ + decimal(
        round_length_blocks as nat,
    ) + "** ("@ + elapsed_pct + "% complete)\nTime left to call reward: **~"@ + remaining_spec(
        remaining_secs,
    )
        + "**\n\nIf no reward call lands before the round ends, delegators earn no inflation rewards from this orchestrator for the round."@
}

/// The description of the reward-call pending DM.
pub fn reward_pending_description(
    display_name: &Option<String>,
    addr: &str,
    round: i64,
    est_block: u64,
    round_length_blocks: u64,
    elapsed_pct: &str,
    remaining_secs: u64,
) -> (s: String)
    ensures
        s@ == reward_pending_text(
            *display_name,
            addr@,
            round,
            est_block,
            round_length_blocks,
            elapsed_pct@,
            remaining_secs,
        ),
{
    let mut s = String::new();
    push_orch_link(&mut s, display_name, addr);
    s.append(" has **not called reward** for round **");
    let r = i64_text(round);
    s.append(r.as_str());
    s.append("** yet.\n\nRound progress: block ~**");
    let b = u64_text(est_block);
    s.append(b.as_str());
    s.append(" of ");
    let l = u64_text(round_length_blocks);
    s.append(l.as_str());
    s.append("** (");
    s.append(elapsed_pct);
    s.append("% complete)\nTime left to call reward: **~");
    let left = remaining_text(remaining_secs);
    s.append(left.as_str());
    s.append(
        "**\n\nIf no reward call lands before the round ends, delegators earn no inflation rewards from this orchestrator for the round.",
    );
    proof {
        assert(s@ =~= reward_pending_text(
            *display_name,
            addr@,
            round,
            est_block,
            round_length_blocks,
            elapsed_pct@,
            remaining_secs,
        ));
    }
    s
}

/// The description of the DM sent after a round closed without a reward
/// call.
pub open spec fn reward_missed_text(display_name: Option<String>, addr: Seq<char>, round: i64) -> Seq<char> {
    orch_link(display_name, addr) + " **did not call reward** during round **"@ + signed_decimal(
        round as int,
    )
        + "**.\n\nDelegators earned no inflation rewards from this orchestrator for that round. The reward call for the new round is still available."@
}

/// The description of the reward-call missed DM.
pub fn reward_missed_description(display_name: &Option<String>, addr: &str, round: i64) -> (s: String)
    ensures
        s@ == reward_missed_text(*display_name, addr@, round),
{
    let mut s = String::new();
    push_orch_link(&mut s, display_name, addr);
    s.append(" **did not call reward** during round **");
    let r = i64_text(round);
    s.append(r.as_str());
    s.append(
        "**.\n\nDelegators earned no inflation rewards from this orchestrator for that round. The reward call for the new round is still available.",
    );
    proof {
        assert(s@ =~= reward_missed_text(*display_name, addr@, round));
    }
    s
}

/// One orchestrator named by the public delinquency digest.
pub struct DelinquentLine {
    pub display_name: Option<String>,
    pub address: String,
    /// Its total stake, formatted in whole LPT.
    pub stake: String,
}

/// Most orchestrators listed by name in the delinquency digest.
pub const DIGEST_MAX_LINES: usize = 20;

/// The digest line of one orchestrator; unnamed ones show their short
/// address.
pub open spec fn delinquent_line_text(l: DelinquentLine) -> Seq<char> {
    "• [**"@ + (match l.display_name {
        Some(n) => n@,
        None => short_addr_text(l.address@),
    }) + "**](https://tools.livepeer.cloud/orchestrator/"@ + l.address@ + ") — "@ + l.stake@
        + " LPT staked"@
}

/// The lines of `ls`, one per line.
pub open spec fn delinquent_lines_text(ls: Seq<DelinquentLine>) -> Seq<char>
    decreases ls.len(),
{
    if ls.len() == 0 {
        Seq::empty()
    } else if ls.len() == 1 {
        delinquent_line_text(ls[0])
    } else {
        delinquent_lines_text(ls.drop_last()) + "\n"@ + delinquent_line_text(ls.last())
    }
}

/// The description of the public delinquency digest: the round's state,
/// the first `DIGEST_MAX_LINES` orchestrators (in the order given, largest
/// stake first), a count of the rest, and the closing note.
pub open spec fn delinquency_digest_text(
    round: i64,
    elapsed_pct: Seq<char>,
    est_block: u64,
    round_length_blocks: u64,
    ls: Seq<DelinquentLine>,
) -> Seq<char> {
    let shown = if ls.len() > DIGEST_MAX_LINES {
        ls.take(DIGEST_MAX_LINES as int)
    } else {
        ls
    };
    "Round **"@ + signed_decimal(round as int) + "** is **"@ + elapsed_pct + "% complete** (block ~"@
        + decimal(est_block as nat) + " of "@ + decimal(round_length_blocks as nat)
        + ") and has entered its lock period. **"@ + decimal(ls.len()) + "** active orchestrator"@ + (
    if ls.len() == 1 {
        " has"@
    } else {
        "s have"@
    }) + " not called reward yet:\n\n"@ + delinquent_lines_text(shown) + (if ls.len()
        > DIGEST_MAX_LINES {
        "\n…and "@ + decimal((ls.len() - DIGEST_MAX_LINES) as nat) + " more"@
    } else {
        Seq::empty()
    })
        + "\n\nDelegators to these orchestrators earn no inflation rewards for the round unless a reward call lands before it ends."@
}

fn push_delinquent_line(s: &mut String, line: &DelinquentLine, separated: bool)
    requires
        short_addr_cuttable(line.address@),
    ensures
        final(s)@ == old(s)@ + (if separated {
            "\n"@
        } else {
            Seq::empty()
        }) + delinquent_line_text(*line),
{
    let ghost start = s@;
    if separated {
        s.append("\n");
    }
    s.append("• [**");
    match &line.display_name {
        Some(name) => s.append(name.as_str()),
        None => {
            let short = short_addr(line.address.as_str());
            s.append(short.as_str());
        },
    }
    s.append("**](https://tools.livepeer.cloud/orchestrator/");
    s.append(line.address.as_str());
    s.append(") — ");
    s.append(line.stake.as_str());
    s.append(" LPT staked");
    assert(s@ =~= start + (if separated {
        "\n"@
    } else {
        Seq::empty()
    }) + delinquent_line_text(*line));
}

/// The description of the public delinquency digest.
pub fn delinquency_digest_description(
    round: i64,
    elapsed_pct: &str,
    est_block: u64,
    round_length_blocks: u64,
    lines: &Vec<DelinquentLine>,
) -> (s: String)
    requires
        forall|i: int|
            0 <= i < lines@.len() ==> short_addr_cuttable(#[trigger] lines@[i].address@),
    ensures
        s@ == delinquency_digest_text(round, elapsed_pct@, est_block, round_length_blocks, lines@),
{
    let mut s = String::from_str("Round **");
    let r = i64_text(round);
    s.append(r.as_str());
    s.append("** is **");
    s.append(elapsed_pct);
    s.append("% complete** (block ~");
    let b = u64_text(est_block);
    s.append(b.as_str());
    s.append(" of ");
    let l = u64_text(round_length_blocks);
    s.append(l.as_str());
    s.append(") and has entered its lock period. **");
    let n = u64_text(lines.len() as u64);
    s.append(n.as_str());
    s.append("** active orchestrator");
    if lines.len() == 1 {
        s.append(" has");
    } else {
        s.append("s have");
    }
    s.append(" not called reward yet:\n\n");
    let ghost head = s@;
    let shown: usize = if lines.len() > DIGEST_MAX_LINES {
        DIGEST_MAX_LINES
    } else {
        lines.len()
    };
    let mut i: usize = 0;
    assert(lines@.take(0) =~= Seq::<DelinquentLine>::empty());
    while i < shown
        invariant
            i <= shown <= lines@.len(),
            forall|k: int|
                0 <= k < lines@.len() ==> short_addr_cuttable(#[trigger] lines@[k].address@),
            s@ == head + delinquent_lines_text(lines@.take(i as int)),
        decreases shown - i,
    {
        let ghost before = s@;
        push_delinquent_line(&mut s, &lines[i], i > 0);
        proof {
            let t = lines@.take(i + 1);
            assert(t.drop_last() =~= lines@.take(i as int));
            assert(t.last() == lines@[i as int]);
            if i == 0 {
                assert(t.len() == 1);
                assert(t[0] == lines@[0]);
                assert(before =~= head);
            }
        }
        i += 1;
    }
    proof {
        if lines@.len() > DIGEST_MAX_LINES {
            assert(lines@.take(shown as int) == lines@.take(DIGEST_MAX_LINES as int));
        } else {
            assert(lines@.take(shown as int) =~= lines@);
        }
    }
    let ghost body = s@;
    if lines.len() > DIGEST_MAX_LINES {
        s.append("\n…and ");
        let more = u64_text((lines.len() - DIGEST_MAX_LINES) as u64);
        s.append(more.as_str());
        s.append(" more");
    }
    s.append(
        "\n\nDelegators to these orchestrators earn no inflation rewards for the round unless a reward call lands before it ends.",
    );
    proof {
        assert(s@ =~= delinquency_digest_text(
            round,
            elapsed_pct@,
            est_block,
            round_length_blocks,
            lines@,
        ));
    }
    s
}

} // verus!
