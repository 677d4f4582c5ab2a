//! Logic behind the slash commands: address checks, display forms, period
//! windows and the reply texts.

use vstd::prelude::*;
use vstd::string::*;
use vstd::utf8::*;

use crate::calendar::{
    closed_period_window, closed_period_window_checked, closed_window, window_defined, window_shape,
};
use crate::explorer::Cadence;
use crate::text::{
    chars_of, decimal, i64_text, lowercase, signed_decimal, str_equal, to_lowercase, trim, trim_text,
    u64_text,
};

verus! {

broadcast use vstd::utf8::group_utf8_lib;

/// ASCII hexadecimal digit, as `char::is_ascii_hexdigit` accepts it.
pub open spec fn is_hex_digit(c: char) -> bool {
    ('0' <= c <= '9') || ('A' <= c <= 'F') || ('a' <= c <= 'f')
}

/// `0x` followed by exactly 40 hexadecimal digits.
pub open spec fn eth_address_shape(s: Seq<char>) -> bool {
    &&& s.len() == 42
    &&& s[0] == '0'
    &&& s[1] == 'x'
    &&& forall|i: int| 2 <= i < 42 ==> is_hex_digit(#[trigger] s[i])
}

/// Validate that a string looks like a 0x-prefixed Ethereum address.
/// Mixed case is accepted; callers lower-case elsewhere.
pub fn is_valid_eth_address(s: &str) -> (b: bool)
    ensures
        b == eth_address_shape(s@),
{
    let v = chars_of(s);
    if v.len() != 42 || v[0] != '0' || v[1] != 'x' {
        return false;
    }
    let mut i: usize = 2;
    while i < 42
        invariant
            2 <= i <= 42,
            v@.len() == 42,
            v@ == s@,
            forall|j: int| 2 <= j < i ==> is_hex_digit(#[trigger] v@[j]),
        decreases 42 - i,
    {
        let c = v[i];
        if !(('0' <= c && c <= '9') || ('A' <= c && c <= 'F') || ('a' <= c && c <= 'f')) {
            assert(!is_hex_digit(s@[i as int]));
            return false;
        }
        i += 1;
    }
    true
}

/// Inputs on which the display form can be cut: a short text, or one
/// whose UTF-8 byte offsets 6 and `len - 4` fall on character boundaries.
pub open spec fn short_addr_cuttable(addr: Seq<char>) -> bool {
    let b = encode_utf8(addr);
    b.len() >= 12 ==> is_char_boundary(b, 6) && is_char_boundary(b, b.len() - 4)
}

/// The display form of an address: the first 6 and last 4 UTF-8 bytes
/// around an ellipsis when it is at least 12 bytes long, else the address
/// unchanged.
pub open spec fn short_addr_text(addr: Seq<char>) -> Seq<char> {
    let b = encode_utf8(addr);
    if b.len() >= 12 {
        decode_utf8(b.subrange(0, 6)) + "…"@ + decode_utf8(b.subrange(b.len() - 4, b.len() as int))
    } else {
        addr
    }
}

/// Truncate an address for display: `0x1234…5678`.
pub fn short_addr(addr: &str) -> (r: String)
    requires
        short_addr_cuttable(addr@),
    ensures
        r@ == short_addr_text(addr@),
{
    let n = addr.as_bytes().len();
    if n >= 12 {
        let (head, _) = addr.split_at(6);
        let (_, tail) = addr.split_at(n - 4);
        let mut r = String::new();
        r.append(head);
        r.append("…");
        r.append(tail);
        proof {
            assert(decode_utf8(head.spec_bytes()) == head@);
            assert(decode_utf8(tail.spec_bytes()) == tail@);
        }
        r
    } else {
        String::from_str(addr)
    }
}

/// For an ASCII address the display form keeps the first 6 and the last 4
/// characters.
pub proof fn short_addr_of_ascii(s: Seq<char>)
    requires
        is_ascii_chars(s),
    ensures
        short_addr_cuttable(s),
        s.len() >= 12 ==> short_addr_text(s) == s.subrange(0, 6) + "…"@ + s.subrange(
            s.len() - 4,
            s.len() as int,
        ),
        s.len() < 12 ==> short_addr_text(s) == s,
{
    let b = encode_utf8(s);
    is_ascii_chars_encode_utf8(s);
    assert(b.len() == s.len());
    if s.len() >= 12 {
        assert forall|i: int| 0 <= i < b.len() implies !is_continuation_byte(#[trigger] b[i]) by {
            assert(s[i] as u8 == b[i]);
            assert('\0' <= s[i] <= '\u{7f}');
        }
        is_char_boundary_iff_not_is_continuation_byte(b, 6);
        is_char_boundary_iff_not_is_continuation_byte(b, b.len() - 4);
        ascii_slice_decodes(s, 0, 6);
        ascii_slice_decodes(s, s.len() - 4, s.len() as int);
    }
}

proof fn ascii_slice_decodes(s: Seq<char>, a: int, c: int)
    requires
        is_ascii_chars(s),
        0 <= a <= c <= s.len(),
    ensures
        decode_utf8(encode_utf8(s).subrange(a, c)) == s.subrange(a, c),
{
    let sub = s.subrange(a, c);
    is_ascii_chars_encode_utf8(s);
    assert(is_ascii_chars(sub));
    is_ascii_chars_encode_utf8(sub);
    assert(encode_utf8(s).subrange(a, c) =~= encode_utf8(sub)) by {
        assert forall|i: int| 0 <= i < c - a implies encode_utf8(s).subrange(a, c)[i] == encode_utf8(
            sub,
        )[i] by {
            assert(sub[i] == s[i + a]);
        }
    }
}

/// An address accepted by `is_valid_eth_address` is ASCII.
pub proof fn eth_address_is_ascii(s: Seq<char>)
    requires
        eth_address_shape(s),
    ensures
        is_ascii_chars(s),
{
    assert forall|i: int| 0 <= i < s.len() implies '\0' <= #[trigger] s[i] <= '\u{7f}' by {
        if i >= 2 {
            assert(is_hex_digit(s[i]));
        }
    }
}

/// The form in which addresses are compared and stored: trimmed and
/// lower-cased.
pub fn normalize_address(raw: &str) -> (r: String)
    ensures
        r@ == lowercase(trim(raw@)),
{
    let t = trim_text(raw);
    to_lowercase(t.as_str())
}

/// Period offered by the `/orchestrator` subcommands.
#[derive(Debug, Clone, Copy, PartialEq, Eq, Structural)]
pub enum PeriodChoice {
    Daily,
    Weekly,
    Monthly,
}

impl PeriodChoice {
    /// The capitalised name of the period.
    pub open spec fn label_text(self) -> Seq<char> {
        match self {
            PeriodChoice::Daily => "Daily"@,
            PeriodChoice::Weekly => "Weekly"@,
            PeriodChoice::Monthly => "Monthly"@,
        }
    }

    /// The summary cadence with the same period.
    pub open spec fn cadence(self) -> Cadence {
        match self {
            PeriodChoice::Daily => Cadence::Daily,
            PeriodChoice::Weekly => Cadence::Weekly,
            PeriodChoice::Monthly => Cadence::Monthly,
        }
    }

    /// The capitalised name of the period.
    pub fn label(&self) -> (s: &'static str)
        ensures
            s@ == self.label_text(),
    {
        match self {
            PeriodChoice::Daily => "Daily",
            PeriodChoice::Weekly => "Weekly",
            PeriodChoice::Monthly => "Monthly",
        }
    }
}

/// `[from, to]` of the last complete UTC period before day `today`:
/// yesterday, the previous Monday–Sunday week, or the previous month.
pub fn period_window(period: PeriodChoice, today: i32) -> (r: (i32, i32))
    requires
        window_defined(period.cadence(), today as int),
    ensures
        (r.0 as int, r.1 as int) == closed_window(period.cadence(), today as int),
        window_shape(period.cadence(), today as int, r.0 as int, r.1 as int),
{
    let cadence = match period {
        PeriodChoice::Daily => Cadence::Daily,
        PeriodChoice::Weekly => Cadence::Weekly,
        PeriodChoice::Monthly => Cadence::Monthly,
    };
    closed_period_window(cadence, today)
}

/// Like `period_window`, but `None` where the window leaves the calendar's
/// range.
pub fn period_window_checked(period: PeriodChoice, today: i32) -> (r: Option<(i32, i32)>)
    ensures
        r is Some <==> window_defined(period.cadence(), today as int),
        r matches Some(w) ==> (w.0 as int, w.1 as int) == closed_window(period.cadence(), today as int)
            && window_shape(period.cadence(), today as int, w.0 as int, w.1 as int),
{
    let cadence = match period {
        PeriodChoice::Daily => Cadence::Daily,
        PeriodChoice::Weekly => Cadence::Weekly,
        PeriodChoice::Monthly => Cadence::Monthly,
    };
    closed_period_window_checked(cadence, today)
}

/// Embed colour for errors.
pub open spec fn error_colour() -> u32 {
    0xd04a4a
}

/// Embed colour for successful changes and listings.
pub open spec fn success_colour() -> u32 {
    0x46a758
}

/// Embed colour for requests that changed nothing.
pub open spec fn neutral_colour() -> u32 {
    0x969696
}

/// An ephemeral embed reply: title, description and colour as `0xRRGGBB`.
pub struct Reply {
    pub title: String,
    pub description: String,
    pub colour: u32,
}

/// The reply to an address that is not `0x` plus 40 hex digits.
pub open spec fn invalid_address_text() -> Seq<char> {
    "Invalid orchestrator address — expected `0x` followed by 40 hex characters."@
}

fn error_reply(description: String) -> (r: Reply)
    ensures
        r.title@ == "Error"@,
        r.description == description,
        r.colour == error_colour(),
{
    Reply { title: String::from_str("Error"), description, colour: 0xd04a4a }
}

/// Normalizes the address given to `/subscribe` or `/unsubscribe`, or gives
/// the error reply when it is not a valid address.
pub fn checked_address(raw: &str) -> (r: Result<String, Reply>)
    ensures
        r matches Ok(a) ==> a@ == lowercase(trim(raw@)) && eth_address_shape(a@),
        r matches Err(reply) ==> !eth_address_shape(lowercase(trim(raw@))) && reply.title@
            == "Error"@ && reply.description@ == invalid_address_text() && reply.colour
            == error_colour(),
        r is Ok <==> eth_address_shape(lowercase(trim(raw@))),
{
    let addr = normalize_address(raw);
    if is_valid_eth_address(addr.as_str()) {
        Ok(addr)
    } else {
        Err(
            error_reply(
                String::from_str(
                    "Invalid orchestrator address — expected `0x` followed by 40 hex characters.",
                ),
            ),
        )
    }
}

/// The reply when the user already has `cap` subscriptions or more.
pub open spec fn cap_text(cap: u32) -> Seq<char> {
    "You're at the subscription cap ("@ + decimal(cap as nat) + "). Use `/unsubscribe` first."@
}

/// The error reply for a user at the subscription cap, or `None` when
/// `count` is below it.
pub fn cap_reply(count: i64, cap: u32) -> (r: Option<Reply>)
    ensures
        r is Some <==> count >= cap,
        r matches Some(reply) ==> reply.title@ == "Error"@ && reply.description@ == cap_text(cap)
            && reply.colour == error_colour(),
{
    if count >= cap as i64 {
        let mut d = String::from_str("You're at the subscription cap (");
        let n = u64_text(cap as u64);
        d.append(n.as_str());
        d.append("). Use `/unsubscribe` first.");
        Some(error_reply(d))
    } else {
        None
    }
}

/// The reply when no orchestrator is known at `addr`.
pub open spec fn not_found_text(addr: Seq<char>) -> Seq<char> {
    "Couldn't find an orchestrator at `"@ + short_addr_text(addr)
        + "`. Check the address and try again."@
}

/// The error reply when the explorer knows no orchestrator at `addr`.
pub fn not_found_reply(addr: &str) -> (r: Reply)
    requires
        eth_address_shape(addr@),
    ensures
        r.title@ == "Error"@,
        r.description@ == not_found_text(addr@),
        r.colour == error_colour(),
{
    proof {
        eth_address_is_ascii(addr@);
        short_addr_of_ascii(addr@);
    }
    let mut d = String::from_str("Couldn't find an orchestrator at `");
    let short = short_addr(addr);
    d.append(short.as_str());
    d.append("`. Check the address and try again.");
    error_reply(d)
}

/// The name shown for an orchestrator: its display name, else the short
/// form of its address.
pub open spec fn shown_name(display_name: Option<String>, addr: Seq<char>) -> Seq<char> {
    match display_name {
        Some(n) => n@,
        None => short_addr_text(addr),
    }
}

/// The reply after a new subscription; `count` is the number held before.
pub open spec fn subscribed_text(name: Seq<char>, addr: Seq<char>, count: int, cap: u32) -> Seq<char> {
    "Now following **"@ + name + "** (`"@ + short_addr_text(addr) + "`). You're subscribed to "@
        + signed_decimal(count + 1) + " of "@ + decimal(cap as nat)
        + " orchestrators.\n\n📩 Notifications arrive as DMs. Make sure we share a server and that **\"Allow direct messages from server members\"** is enabled, or I won't be able to reach you — `/subscriptions` shows delivery status."@
}

/// The reply when the subscription already existed.
pub open spec fn already_subscribed_text(name: Seq<char>, addr: Seq<char>) -> Seq<char> {
    "You're already following **"@ + name + "** (`"@ + short_addr_text(addr) + "`)."@
}

/// The reply to `/subscribe` once the subscription was stored (`inserted`)
/// or found to exist already. `count` is the number the user held before,
/// below `cap`.
pub fn subscribe_reply(
    inserted: bool,
    display_name: Option<String>,
    addr: &str,
    count: i64,
    cap: u32,
) -> (r: Reply)
    requires
        eth_address_shape(addr@),
        count < cap,
    ensures
        r.colour == success_colour(),
        inserted ==> r.title@ == "Subscribed"@ && r.description@ == subscribed_text(
            shown_name(display_name, addr@),
            addr@,
            count as int,
            cap,
        ),
        !inserted ==> r.title@ == "Already subscribed"@ && r.description@
            == already_subscribed_text(shown_name(display_name, addr@), addr@),
{
    proof {
        eth_address_is_ascii(addr@);
        short_addr_of_ascii(addr@);
    }
    let short = short_addr(addr);
    let name = match display_name {
        Some(n) => n,
        None => short_addr(addr),
    };
    if inserted {
        let mut d = String::from_str("Now following **");
        d.append(name.as_str());
        d.append("** (`");
        d.append(short.as_str());
        d.append("`). You're subscribed to ");
        let held = i64_text(count + 1);
        d.append(held.as_str());
        d.append(" of ");
        let c = u64_text(cap as u64);
        d.append(c.as_str());
        d.append(
            " orchestrators.\n\n📩 Notifications arrive as DMs. Make sure we share a server and that **\"Allow direct messages from server members\"** is enabled, or I won't be able to reach you — `/subscriptions` shows delivery status.",
        );
        Reply { title: String::from_str("Subscribed"), description: d, colour: 0x46a758 }
    } else {
        let mut d = String::from_str("You're already following **");
        d.append(name.as_str());
        d.append("** (`");
        d.append(short.as_str());
        d.append("`).");
        Reply { title: String::from_str("Already subscribed"), description: d, colour: 0x46a758 }
    }
}

/// The reply to `/unsubscribe` after the subscription was `removed` or
/// found absent.
pub fn unsubscribe_reply(removed: bool, addr: &str) -> (r: Reply)
    requires
        eth_address_shape(addr@),
    ensures
        removed ==> r.title@ == "Unsubscribed"@ && r.description@ == "Stopped following `"@
            + short_addr_text(addr@) + "`."@ && r.colour == success_colour(),
        !removed ==> r.title@ == "Not subscribed"@ && r.description@ == "You weren't following `"@
            + short_addr_text(addr@) + "`."@ && r.colour == neutral_colour(),
{
    proof {
        eth_address_is_ascii(addr@);
        short_addr_of_ascii(addr@);
    }
    let short = short_addr(addr);
    if removed {
        let mut d = String::from_str("Stopped following `");
        d.append(short.as_str());
        d.append("`.");
        Reply { title: String::from_str("Unsubscribed"), description: d, colour: 0x46a758 }
    } else {
        let mut d = String::from_str("You weren't following `");
        d.append(short.as_str());
        d.append("`.");
        Reply { title: String::from_str("Not subscribed"), description: d, colour: 0x969696 }
    }
}

/// Whether `short_addr` can cut `addr` (always so for ASCII text).
pub fn shortenable(addr: &str) -> (b: bool)
    ensures
        b == short_addr_cuttable(addr@),
{
    let n = addr.as_bytes().len();
    n < 12 || (addr.is_char_boundary(6) && addr.is_char_boundary(n - 4))
}

/// One row of the `/subscriptions` listing.
pub struct SubscriptionLine {
    /// The orchestrator's display name, when the explorer gave one.
    pub display_name: Option<String>,
    pub address: String,
    pub dm_blocked: bool,
}

/// Marker after a subscription whose DMs cannot be delivered.
pub open spec fn blocked_flag() -> Seq<char> {
    "  ⚠️ DM-blocked"@
}

/// The listing line of one subscription.
pub open spec fn line_text(l: SubscriptionLine) -> Seq<char> {
    "• **"@ + (match l.display_name {
        Some(n) => n@,
        None => l.address@,
    }) + "** — `"@ + short_addr_text(l.address@) + "`"@ + (if l.dm_blocked {
        blocked_flag()
    } else {
        Seq::empty()
    }) + "\n"@
}

/// The listing lines, in order.
pub open spec fn lines_text(ls: Seq<SubscriptionLine>) -> Seq<char>
    decreases ls.len(),
{
    if ls.len() == 0 {
        Seq::empty()
    } else {
        lines_text(ls.drop_last()) + line_text(ls.last())
    }
}

/// Some listed subscription is DM-blocked.
pub open spec fn any_blocked(ls: Seq<SubscriptionLine>) -> bool {
    exists|i: int| 0 <= i < ls.len() && #[trigger] ls[i].dm_blocked
}

/// The note that explains DM-blocked entries.
pub open spec fn blocked_note() -> Seq<char> {
    "\n⚠️ Entries marked **DM-blocked** mean I couldn't deliver a DM to you, so notifications are paused (your subscription is kept). Enable **\"Allow direct messages from server members\"** in Discord and make sure we share a server — delivery resumes automatically on the next successful DM."@
}

/// The description of the `/subscriptions` reply.
pub open spec fn subscriptions_text(ls: Seq<SubscriptionLine>, cap: u32) -> Seq<char> {
    if ls.len() == 0 {
        "You're not subscribed to any orchestrators yet. Use `/subscribe <address>` to start."@
    } else {
        "You follow "@ + decimal(ls.len()) + " of "@ + decimal(cap as nat) + " orchestrators:\n\n"@
            + lines_text(ls) + (if any_blocked(ls) {
            blocked_note()
        } else {
            Seq::empty()
        })
    }
}

fn push_subscription_line(d: &mut String, line: &SubscriptionLine)
    requires
        short_addr_cuttable(line.address@),
    ensures
        final(d)@ == old(d)@ + line_text(*line),
{
    let ghost start = d@;
    d.append("• **");
    match &line.display_name {
        Some(name) => d.append(name.as_str()),
        None => d.append(line.address.as_str()),
    }
    d.append("** — `");
    let short = short_addr(line.address.as_str());
    d.append(short.as_str());
    d.append("`");
    if line.dm_blocked {
        d.append("  ⚠️ DM-blocked");
    }
    d.append("\n");
    assert(d@ =~= start + line_text(*line));
}

/// The reply to `/subscriptions`.
pub fn subscriptions_reply(lines: &Vec<SubscriptionLine>, cap: u32) -> (r: Reply)
    requires
        forall|i: int| 0 <= i < lines@.len() ==> short_addr_cuttable(#[trigger] lines@[i].address@),
    ensures
        r.title@ == "Your subscriptions"@,
        r.description@ == subscriptions_text(lines@, cap),
        r.colour == success_colour(),
{
    if lines.len() == 0 {
        return Reply {
            title: String::from_str("Your subscriptions"),
            description: String::from_str(
                "You're not subscribed to any orchestrators yet. Use `/subscribe <address>` to start.",
            ),
            colour: 0x46a758,
        };
    }
    let mut d = String::from_str("You follow ");
    let n = u64_text(lines.len() as u64);
    d.append(n.as_str());
    d.append(" of ");
    let c = u64_text(cap as u64);
    d.append(c.as_str());
    d.append(" orchestrators:\n\n");
    let ghost head = d@;
    let mut blocked = false;
    let mut i: usize = 0;
    assert(lines@.take(0) =~= Seq::<SubscriptionLine>::empty());
    while i < lines.len()
        invariant
            i <= lines@.len(),
            forall|k: int| 0 <= k < lines@.len() ==> short_addr_cuttable(#[trigger] lines@[k].address@),
            d@ == head + lines_text(lines@.take(i as int)),
            blocked == any_blocked(lines@.take(i as int)),
        decreases lines@.len() - i,
    {
        let line = &lines[i];
        let ghost before = d@;
        push_subscription_line(&mut d, line);
        proof {
            let t = lines@.take(i + 1);
            assert(t.drop_last() =~= lines@.take(i as int));
            assert(t.last() == lines@[i as int]);
            if line.dm_blocked {
                assert(t[i as int].dm_blocked);
            }
            if any_blocked(t) && !line.dm_blocked {
                let k = choose|k: int| 0 <= k < t.len() && #[trigger] t[k].dm_blocked;
                assert(lines@.take(i as int)[k].dm_blocked);
            }
            if any_blocked(lines@.take(i as int)) {
                let k = choose|k: int| 0 <= k < i && #[trigger] lines@.take(i as int)[k].dm_blocked;
                assert(t[k].dm_blocked);
            }
        }
        blocked = blocked || line.dm_blocked;
        i += 1;
    }
    assert(lines@.take(lines.len() as int) =~= lines@);
    if blocked {
        d.append(
            "\n⚠️ Entries marked **DM-blocked** mean I couldn't deliver a DM to you, so notifications are paused (your subscription is kept). Enable **\"Allow direct messages from server members\"** in Discord and make sure we share a server — delivery resumes automatically on the next successful DM.",
        );
    }
    Reply { title: String::from_str("Your subscriptions"), description: d, colour: 0x46a758 }
}

/// The first leaderboard row whose orchestrator address, lower-cased,
/// equals `addr`.
pub fn find_orchestrator_row(addresses: &Vec<String>, addr: &str) -> (r: Option<usize>)
    ensures
        match r {
            Some(i) => i < addresses@.len() && lowercase(addresses@[i as int]@) == addr@ && forall|j: int|
                0 <= j < i ==> lowercase(#[trigger] addresses@[j]@) != addr@,
            None => forall|j: int|
                0 <= j < addresses@.len() ==> lowercase(#[trigger] addresses@[j]@) != addr@,
        },
{
    let mut i: usize = 0;
    while i < addresses.len()
        invariant
            i <= addresses@.len(),
            forall|j: int| 0 <= j < i ==> lowercase(#[trigger] addresses@[j]@) != addr@,
        decreases addresses@.len() - i,
    {
        let lower = to_lowercase(addresses[i].as_str());
        if str_equal(lower.as_str(), addr) {
            return Some(i);
        }
        i += 1;
    }
    None
}

} // verus!
