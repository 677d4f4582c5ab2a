//! Settings read from environment variables: defaults, parsing and the
//! errors reported for missing or malformed values.

use vstd::prelude::*;
use vstd::string::*;
use crate::links::{parse_url, text_result, url_parse_outcome};
use crate::numbers::{
    i64_parse_error, parse_i64, parse_u32, parse_u64, signed_syntax, signed_value, u32_parse_error,
    u64_parse_error, unsigned_syntax, unsigned_value,
};
use crate::summary::SummaryReadiness;
use crate::text::{decimal, u64_text};
use crate::text::{
    ascii_lower, ascii_lowercase_chars, chars_of, chars_start_with, has_prefix, str_equal, string_of,
    trim, trim_chars,
};

verus! {

/// Why the settings could not be read.
pub enum ConfigError {
    /// A required variable is absent.
    Missing(&'static str),
    /// A variable is present but its value is unusable.
    Invalid { var: &'static str, reason: String },
}

/// `ConfigError` as plain text values.
pub enum ConfigFault {
    Missing(Seq<char>),
    Invalid(Seq<char>, Seq<char>),
}

impl View for ConfigError {
    type V = ConfigFault;

    open spec fn view(&self) -> ConfigFault {
        match self {
            ConfigError::Missing(name) => ConfigFault::Missing(name@),
            ConfigError::Invalid { var, reason } => ConfigFault::Invalid(var@, reason@),
        }
    }
}

/// The message shown for a fault.
pub open spec fn fault_text(f: ConfigFault) -> Seq<char> {
    match f {
        ConfigFault::Missing(name) => "missing required env var: "@ + name,
        ConfigFault::Invalid(var, reason) => "invalid value for "@ + var + ": "@ + reason,
    }
}

/// A result whose error is shown as its plain view.
pub open spec fn fault_view<T>(r: Result<T, ConfigError>) -> Result<T, ConfigFault> {
    match r {
        Ok(v) => Ok(v),
        Err(e) => Err(e@),
    }
}

impl ConfigError {
    /// The error's message.
    pub fn to_string(&self) -> (s: String)
        ensures
            s@ == fault_text(self@),
    {
        match self {
            ConfigError::Missing(name) => {
                let mut s = String::from_str("missing required env var: ");
                s.append(name);
                s
            },
            ConfigError::Invalid { var, reason } => {
                let mut s = String::from_str("invalid value for ");
                s.append(var);
                s.append(": ");
                s.append(reason.as_str());
                s
            },
        }
    }
}

/// The scheme prefix of a file-backed SQLite URL.
pub open spec fn sqlite_scheme() -> Seq<char> {
    "sqlite://"@
}

/// A SQLite URL whose path does not start at the filesystem root.
pub open spec fn sqlite_path_relative(url: Seq<char>) -> bool {
    &&& has_prefix(url, sqlite_scheme())
    &&& !(url.len() > sqlite_scheme().len() && url[sqlite_scheme().len() as int] == '/')
}

/// Inside a container only the in-memory database or an absolute SQLite
/// path survives a restart; other URL schemes are not judged.
pub open spec fn database_url_rejected(url: Seq<char>, in_container: bool) -> bool {
    in_container && url != "sqlite::memory:"@ && sqlite_path_relative(url)
}

/// Why a relative SQLite path is refused.
pub open spec fn relative_path_reason(url: Seq<char>) -> Seq<char> {
    "containerized deploys must use an absolute SQLite path such as `sqlite:///data/livepeer-payout-bot.db`; relative paths like `"@
        + url + "` are ephemeral inside the container"@
}

/// Refuses a relative SQLite path when running inside a container.
pub fn validate_database_url(database_url: &str, in_container: bool) -> (r: Result<(), ConfigError>)
    ensures
        r is Err <==> database_url_rejected(database_url@, in_container),
        r matches Err(e) ==> e@ == ConfigFault::Invalid(
            "DATABASE_URL"@,
            relative_path_reason(database_url@),
        ),
{
    if !in_container || str_equal(database_url, "sqlite::memory:") {
        return Ok(());
    }
    let url = chars_of(database_url);
    let scheme = chars_of("sqlite://");
    if !chars_start_with(&url, &scheme) {
        return Ok(());
    }
    let n = scheme.len();
    if url.len() > n && url[n] == '/' {
        return Ok(());
    }
    let mut reason = String::from_str(
        "containerized deploys must use an absolute SQLite path such as `sqlite:///data/livepeer-payout-bot.db`; relative paths like `",
    );
    reason.append(database_url);
    reason.append("` are ephemeral inside the container");
    Err(ConfigError::Invalid { var: "DATABASE_URL", reason })
}

/// The pieces of `s` between commas, as `str::split(',')` yields them.
pub open spec fn comma_pieces(s: Seq<char>) -> Seq<Seq<char>>
    decreases s.len(),
{
    if s.len() == 0 {
        seq![Seq::empty()]
    } else {
        let init = comma_pieces(s.drop_last());
        if s.last() == ',' {
            init.push(Seq::empty())
        } else {
            init.update(init.len() - 1, init.last().push(s.last()))
        }
    }
}

/// The pieces, each trimmed, without those that are blank.
pub open spec fn nonblank_trimmed(pieces: Seq<Seq<char>>) -> Seq<Seq<char>>
    decreases pieces.len(),
{
    if pieces.len() == 0 {
        Seq::empty()
    } else {
        let rest = nonblank_trimmed(pieces.drop_last());
        let t = trim(pieces.last());
        if t.len() == 0 {
            rest
        } else {
            rest.push(t)
        }
    }
}

/// The URL texts listed in a comma-separated value.
pub open spec fn url_entries(raw: Seq<char>) -> Seq<Seq<char>> {
    nonblank_trimmed(comma_pieces(raw))
}

/// Parses each entry in order and stops at the first failure.
pub open spec fn parse_all(entries: Seq<Seq<char>>) -> Result<Seq<Seq<char>>, Seq<char>>
    decreases entries.len(),
{
    if entries.len() == 0 {
        Ok(Seq::empty())
    } else {
        match parse_all(entries.drop_last()) {
            Err(e) => Err(e),
            Ok(done) => match url_parse_outcome(entries.last()) {
                Ok(u) => Ok(done.push(u)),
                Err(e) => Err(e),
            },
        }
    }
}

proof fn comma_pieces_nonempty(s: Seq<char>)
    ensures
        comma_pieces(s).len() >= 1,
    decreases s.len(),
{
    if s.len() > 0 {
        comma_pieces_nonempty(s.drop_last());
    }
}

proof fn comma_pieces_step(s: Seq<char>, j: int)
    requires
        0 <= j < s.len(),
    ensures
        comma_pieces(s.take(j + 1)) == (if s[j] == ',' {
            comma_pieces(s.take(j)).push(Seq::empty())
        } else {
            comma_pieces(s.take(j)).update(
                comma_pieces(s.take(j)).len() - 1,
                comma_pieces(s.take(j)).last().push(s[j]),
            )
        }),
{
    assert(s.take(j + 1).drop_last() =~= s.take(j));
}

/// The pieces finished before position `k` stay the leading pieces of any
/// longer prefix.
proof fn comma_pieces_prefix(s: Seq<char>, k: int, j: int)
    requires
        0 <= k <= j <= s.len(),
    ensures
        comma_pieces(s.take(j)).len() >= comma_pieces(s.take(k)).len(),
        comma_pieces(s.take(j)).take(comma_pieces(s.take(k)).len() - 1) == comma_pieces(
            s.take(k),
        ).drop_last(),
    decreases j - k,
{
    comma_pieces_nonempty(s.take(k));
    if j == k {
        assert(comma_pieces(s.take(j)).take(comma_pieces(s.take(k)).len() - 1)
            =~= comma_pieces(s.take(k)).drop_last());
    } else {
        comma_pieces_prefix(s, k, j - 1);
        comma_pieces_step(s, j - 1);
        comma_pieces_nonempty(s.take(j - 1));
        let m = comma_pieces(s.take(k)).len() - 1;
        assert(comma_pieces(s.take(j)).take(m) =~= comma_pieces(s.take(j - 1)).take(m));
    }
}

proof fn nonblank_trimmed_concat(p: Seq<Seq<char>>, q: Seq<Seq<char>>)
    ensures
        nonblank_trimmed(p + q) == nonblank_trimmed(p) + nonblank_trimmed(q),
    decreases q.len(),
{
    if q.len() == 0 {
        assert(p + q =~= p);
        assert(nonblank_trimmed(p) + nonblank_trimmed(q) =~= nonblank_trimmed(p));
    } else {
        nonblank_trimmed_concat(p, q.drop_last());
        assert((p + q).drop_last() =~= p + q.drop_last());
        assert((p + q).last() == q.last());
        let t = trim(q.last());
        if t.len() != 0 {
            assert(nonblank_trimmed(p) + nonblank_trimmed(q.drop_last()).push(t) =~= (
            nonblank_trimmed(p) + nonblank_trimmed(q.drop_last())).push(t));
        }
    }
}

proof fn parse_all_stops(a: Seq<Seq<char>>, b: Seq<Seq<char>>)
    requires
        parse_all(a) is Err,
    ensures
        parse_all(a + b) == parse_all(a),
    decreases b.len(),
{
    if b.len() == 0 {
        assert(a + b =~= a);
    } else {
        parse_all_stops(a, b.drop_last());
        assert((a + b).drop_last() =~= a + b.drop_last());
    }
}

/// A failure among the entries finished so far is the failure of the whole
/// list.
proof fn early_failure_is_final(raw: Seq<char>, k: int)
    requires
        0 <= k <= raw.len(),
        parse_all(nonblank_trimmed(comma_pieces(raw.take(k)).drop_last())) is Err,
    ensures
        parse_all(url_entries(raw)) == parse_all(
            nonblank_trimmed(comma_pieces(raw.take(k)).drop_last()),
        ),
{
    comma_pieces_nonempty(raw.take(k));
    comma_pieces_prefix(raw, k, raw.len() as int);
    assert(raw.take(raw.len() as int) =~= raw);
    let all = comma_pieces(raw);
    let m = comma_pieces(raw.take(k)).len() - 1;
    assert(all =~= all.take(m) + all.skip(m));
    nonblank_trimmed_concat(all.take(m), all.skip(m));
    parse_all_stops(nonblank_trimmed(all.take(m)), nonblank_trimmed(all.skip(m)));
}

proof fn comma_free_is_one_piece(s: Seq<char>)
    requires
        forall|i: int| 0 <= i < s.len() ==> s[i] != ',',
    ensures
        comma_pieces(s) == seq![s],
    decreases s.len(),
{
    if s.len() > 0 {
        comma_free_is_one_piece(s.drop_last());
        assert(s[s.len() - 1] != ',');
        assert(s.drop_last().push(s.last()) =~= s);
        let init = comma_pieces(s.drop_last());
        assert(init.update(init.len() - 1, init.last().push(s.last())) =~= seq![s]);
    } else {
        assert(s =~= Seq::<char>::empty());
    }
}

/// A value without commas lists exactly one URL entry: the value trimmed,
/// unless it is blank.
pub proof fn single_url_value_is_one_entry(raw: Seq<char>)
    requires
        forall|i: int| 0 <= i < raw.len() ==> raw[i] != ',',
        trim(raw).len() > 0,
    ensures
        url_entries(raw) == seq![trim(raw)],
{
    comma_free_is_one_piece(raw);
    let pieces = seq![raw];
    assert(pieces.drop_last() =~= Seq::<Seq<char>>::empty());
    assert(pieces.last() == raw);
    assert(nonblank_trimmed(Seq::<Seq<char>>::empty()) == Seq::<Seq<char>>::empty());
    assert(nonblank_trimmed(pieces) == nonblank_trimmed(pieces.drop_last()).push(trim(raw)));
    assert(Seq::<Seq<char>>::empty().push(trim(raw)) =~= seq![trim(raw)]);
}

/// The URLs of a comma-separated list: entries are trimmed, blank ones are
/// skipped, the first one that does not parse is reported, and at least one
/// URL is required.
pub fn parse_url_list(name: &'static str, raw: &str) -> (r: Result<Vec<String>, ConfigError>)
    ensures
        match parse_all(url_entries(raw@)) {
            Err(e) => r matches Err(err) && err@ == ConfigFault::Invalid(name@, e),
            Ok(v) => if v.len() == 0 {
                r matches Err(err) && err@ == ConfigFault::Missing(name@)
            } else {
                r matches Ok(urls) && urls@.len() == v.len() && forall|i: int|
                    0 <= i < v.len() ==> #[trigger] urls@[i]@ == v[i]
            },
        },
{
    let chars = chars_of(raw);
    let mut urls: Vec<String> = Vec::new();
    let mut cur: Vec<char> = Vec::new();
    let mut i: usize = 0;
    assert(chars@.take(0) =~= Seq::<char>::empty());
    assert(comma_pieces(chars@.take(0)).drop_last() =~= Seq::<Seq<char>>::empty());
    while i < chars.len()
        invariant
            i <= chars.len(),
            chars@ == raw@,
            comma_pieces(chars@.take(i as int)).len() >= 1,
            cur@ == comma_pieces(chars@.take(i as int)).last(),
            parse_all(nonblank_trimmed(comma_pieces(chars@.take(i as int)).drop_last())) matches Ok(
                done,
            ) && done.len() == urls@.len() && forall|j: int|
                0 <= j < done.len() ==> #[trigger] urls@[j]@ == done[j],
        decreases chars.len() - i,
    {
        let c = chars[i];
        let ghost old_pieces = comma_pieces(chars@.take(i as int));
        let ghost old_done = parse_all(nonblank_trimmed(old_pieces.drop_last()))->Ok_0;
        proof {
            comma_pieces_step(chars@, i as int);
        }
        if c == ',' {
            let t = trim_chars(&cur);
            assert(old_pieces.drop_last().push(old_pieces.last()) =~= old_pieces);
            if t.len() > 0 {
                let text = string_of(&t);
                match parse_url(text.as_str()) {
                    Ok(u) => {
                        urls.push(u);
                        proof {
                            let e = nonblank_trimmed(old_pieces);
                            assert(e.drop_last() =~= nonblank_trimmed(old_pieces.drop_last()));
                            assert forall|j: int| 0 <= j < old_done.len() + 1 implies #[trigger] urls@[j]@
                                == old_done.push(u@)[j] by {}
                        }
                    },
                    Err(e) => {
                        proof {
                            let ents = nonblank_trimmed(old_pieces);
                            assert(ents.drop_last() =~= nonblank_trimmed(old_pieces.drop_last()));
                            assert(comma_pieces(chars@.take(i + 1)).drop_last() =~= old_pieces);
                            early_failure_is_final(raw@, i + 1);
                        }
                        return Err(ConfigError::Invalid { var: name, reason: e });
                    },
                }
            }
            cur = Vec::new();
            proof {
                assert(comma_pieces(chars@.take(i + 1)).drop_last() =~= old_pieces);
            }
        } else {
            cur.push(c);
            proof {
                assert(comma_pieces(chars@.take(i + 1)).drop_last() =~= old_pieces.drop_last());
            }
        }
        i += 1;
    }
    assert(chars@.take(chars.len() as int) =~= raw@);
    let ghost pieces = comma_pieces(raw@);
    let ghost prior = parse_all(nonblank_trimmed(pieces.drop_last()))->Ok_0;
    assert(pieces.drop_last().push(pieces.last()) =~= pieces);
    let t = trim_chars(&cur);
    if t.len() > 0 {
        let text = string_of(&t);
        match parse_url(text.as_str()) {
            Ok(u) => {
                urls.push(u);
                proof {
                    let e = nonblank_trimmed(pieces);
                    assert(e.drop_last() =~= nonblank_trimmed(pieces.drop_last()));
                    assert forall|j: int| 0 <= j < prior.len() + 1 implies #[trigger] urls@[j]@
                        == prior.push(u@)[j] by {}
                }
            },
            Err(e) => {
                proof {
                    let ents = nonblank_trimmed(pieces);
                    assert(ents.drop_last() =~= nonblank_trimmed(pieces.drop_last()));
                }
                return Err(ConfigError::Invalid { var: name, reason: e });
            },
        }
    }
    if urls.len() == 0 {
        return Err(ConfigError::Missing(name));
    }
    Ok(urls)
}

/// The process environment as name/value pairs.
pub struct EnvVars {
    pub entries: Vec<(String, String)>,
}

/// The value of the first entry named `name`.
pub open spec fn env_lookup(entries: Seq<(String, String)>, name: Seq<char>) -> Option<Seq<char>>
    decreases entries.len(),
{
    if entries.len() == 0 {
        None
    } else if entries[0].0@ == name {
        Some(entries[0].1@)
    } else {
        env_lookup(entries.drop_first(), name)
    }
}

impl EnvVars {
    /// The value of the variable `name`, if it is set.
    pub open spec fn lookup(&self, name: Seq<char>) -> Option<Seq<char>> {
        env_lookup(self.entries@, name)
    }

    /// The value of the variable `name`, if it is set.
    pub fn get(&self, name: &str) -> (r: Option<String>)
        ensures
            opt_view(r) == self.lookup(name@),
    {
        let mut i: usize = 0;
        assert(self.entries@.skip(0) =~= self.entries@);
        while i < self.entries.len()
            invariant
                i <= self.entries.len(),
                env_lookup(self.entries@, name@) == env_lookup(self.entries@.skip(i as int), name@),
            decreases self.entries.len() - i,
        {
            let ghost rest = self.entries@.skip(i as int);
            assert(rest.drop_first() =~= self.entries@.skip(i + 1));
            if str_equal(self.entries[i].0.as_str(), name) {
                return Some(self.entries[i].1.clone());
            }
            i += 1;
        }
        None
    }
}

/// An optional text as plain characters.
pub open spec fn opt_view(v: Option<String>) -> Option<Seq<char>> {
    match v {
        Some(s) => Some(s@),
        None => None,
    }
}

/// `s` read as a `u64` the way `str::parse` reads it.
pub open spec fn parsed_u64(name: Seq<char>, s: Seq<char>) -> Result<u64, ConfigFault> {
    if unsigned_syntax(s) && unsigned_value(s) <= u64::MAX {
        Ok(unsigned_value(s) as u64)
    } else {
        Err(ConfigFault::Invalid(name, u64_parse_error(s)))
    }
}

/// A duration in seconds, or `default` when the variable is unset.
pub open spec fn secs_value(name: Seq<char>, v: Option<Seq<char>>, default: u64) -> Result<u64, ConfigFault> {
    match v {
        None => Ok(default),
        Some(s) => parsed_u64(name, s),
    }
}

/// A required `u64`.
pub open spec fn required_u64_value(name: Seq<char>, v: Option<Seq<char>>) -> Result<u64, ConfigFault> {
    match v {
        None => Err(ConfigFault::Missing(name)),
        Some(s) => parsed_u64(name, s),
    }
}

/// An optional `u64`: unset gives `None`; a set value, blank ones included,
/// must read as a number.
pub open spec fn optional_u64_value(name: Seq<char>, v: Option<Seq<char>>) -> Result<Option<u64>, ConfigFault> {
    match v {
        None => Ok(None),
        Some(s) => match parsed_u64(name, s) {
            Ok(n) => Ok(Some(n)),
            Err(f) => Err(f),
        },
    }
}

/// A `u32`, or `default` when the variable is unset.
pub open spec fn u32_value(name: Seq<char>, v: Option<Seq<char>>, default: u32) -> Result<u32, ConfigFault> {
    match v {
        None => Ok(default),
        Some(s) => if unsigned_syntax(s) && unsigned_value(s) <= u32::MAX {
            Ok(unsigned_value(s) as u32)
        } else {
            Err(ConfigFault::Invalid(name, u32_parse_error(s)))
        },
    }
}

/// An `i64`, or `default` when the variable is unset.
pub open spec fn i64_value(name: Seq<char>, v: Option<Seq<char>>, default: i64) -> Result<i64, ConfigFault> {
    match v {
        None => Ok(default),
        Some(s) => if signed_syntax(s) && i64::MIN <= signed_value(s) <= i64::MAX {
            Ok(signed_value(s) as i64)
        } else {
            Err(ConfigFault::Invalid(name, i64_parse_error(s)))
        },
    }
}

/// Texts read as "yes".
pub open spec fn truthy(t: Seq<char>) -> bool {
    t == "1"@ || t == "true"@ || t == "yes"@ || t == "on"@
}

/// Texts read as "no"; the empty text is one of them.
pub open spec fn falsy(t: Seq<char>) -> bool {
    t == "0"@ || t == "false"@ || t == "no"@ || t == "off"@ || t.len() == 0
}

/// A flag, or `default` when the variable is unset. The value is trimmed
/// and compared without regard to ASCII case.
pub open spec fn bool_value(name: Seq<char>, v: Option<Seq<char>>, default: bool) -> Result<bool, ConfigFault> {
    match v {
        None => Ok(default),
        Some(s) => {
            let t = ascii_lower(trim(s));
            if truthy(t) {
                Ok(true)
            } else if falsy(t) {
                Ok(false)
            } else {
                Err(ConfigFault::Invalid(name, "expected boolean, got `"@ + t + "`"@))
            }
        },
    }
}

/// A flag reads "1", "true", "yes" and "on" as true and "0", "false",
/// "no", "off" and the empty text as false, after trimming and ASCII
/// lower-casing; any other text is invalid, and an unset flag takes its
/// default.
pub proof fn flag_texts_read_as_documented(name: Seq<char>, s: Seq<char>, default: bool)
    ensures
        bool_value(name, None, default) == Ok::<bool, ConfigFault>(default),
        ({
            let t = ascii_lower(trim(s));
            &&& (t == "1"@ || t == "true"@ || t == "yes"@ || t == "on"@) ==> bool_value(
                name,
                Some(s),
                default,
            ) == Ok::<bool, ConfigFault>(true)
            &&& (t == "0"@ || t == "false"@ || t == "no"@ || t == "off"@ || t == ""@) ==> bool_value(
                name,
                Some(s),
                default,
            ) == Ok::<bool, ConfigFault>(false)
            &&& !(t == "1"@ || t == "true"@ || t == "yes"@ || t == "on"@ || t == "0"@ || t
                == "false"@ || t == "no"@ || t == "off"@ || t == ""@) ==> bool_value(
                name,
                Some(s),
                default,
            ) is Err
        }),
{
    reveal_strlit("1");
    reveal_strlit("true");
    reveal_strlit("yes");
    reveal_strlit("on");
    reveal_strlit("0");
    reveal_strlit("false");
    reveal_strlit("no");
    reveal_strlit("off");
    reveal_strlit("");
    assert("no"@[0] != "on"@[0]);
    assert("1"@[0] != "0"@[0]);
    assert("yes"@[0] != "off"@[0]);
    let t = ascii_lower(trim(s));
    assert(t == ""@ <==> t.len() == 0) by {
        if t.len() == 0 {
            assert(t =~= ""@);
        }
    }
    assert((t == "0"@ || t == "false"@ || t == "no"@ || t == "off"@ || t == ""@) ==> !truthy(t));
    assert((t == "0"@ || t == "false"@ || t == "no"@ || t == "off"@ || t == ""@) ==> falsy(t));
}

/// A required text.
pub open spec fn required_text(name: Seq<char>, v: Option<Seq<char>>) -> Result<Seq<char>, ConfigFault> {
    match v {
        None => Err(ConfigFault::Missing(name)),
        Some(s) => Ok(s),
    }
}

/// A required URL, kept as its serialization.
pub open spec fn url_value(name: Seq<char>, v: Option<Seq<char>>) -> Result<Seq<char>, ConfigFault> {
    match v {
        None => Err(ConfigFault::Missing(name)),
        Some(s) => match url_parse_outcome(s) {
            Ok(u) => Ok(u),
            Err(e) => Err(ConfigFault::Invalid(name, e)),
        },
    }
}

/// A required comma-separated list of one or more URLs.
pub open spec fn url_list_value(name: Seq<char>, v: Option<Seq<char>>) -> Result<Seq<Seq<char>>, ConfigFault> {
    match v {
        None => Err(ConfigFault::Missing(name)),
        Some(s) => match parse_all(url_entries(s)) {
            Err(e) => Err(ConfigFault::Invalid(name, e)),
            Ok(us) => if us.len() == 0 {
                Err(ConfigFault::Missing(name))
            } else {
                Ok(us)
            },
        },
    }
}

fn secs_var(name: &'static str, v: Option<String>, default: u64) -> (r: Result<u64, ConfigError>)
    ensures
        fault_view(r) == secs_value(name@, opt_view(v), default),
{
    match v {
        None => Ok(default),
        Some(s) => match parse_u64(s.as_str()) {
            Ok(n) => Ok(n),
            Err(e) => Err(ConfigError::Invalid { var: name, reason: e }),
        },
    }
}

fn u64_var(name: &'static str, v: Option<String>) -> (r: Result<u64, ConfigError>)
    ensures
        fault_view(r) == required_u64_value(name@, opt_view(v)),
{
    match v {
        None => Err(ConfigError::Missing(name)),
        Some(s) => match parse_u64(s.as_str()) {
            Ok(n) => Ok(n),
            Err(e) => Err(ConfigError::Invalid { var: name, reason: e }),
        },
    }
}

fn optional_u64_var(name: &'static str, v: Option<String>) -> (r: Result<Option<u64>, ConfigError>)
    ensures
        fault_view(r) == optional_u64_value(name@, opt_view(v)),
{
    match v {
        None => Ok(None),
        Some(s) => match parse_u64(s.as_str()) {
            Ok(n) => Ok(Some(n)),
            Err(e) => Err(ConfigError::Invalid { var: name, reason: e }),
        },
    }
}

fn u32_var(name: &'static str, v: Option<String>, default: u32) -> (r: Result<u32, ConfigError>)
    ensures
        fault_view(r) == u32_value(name@, opt_view(v), default),
{
    match v {
        None => Ok(default),
        Some(s) => match parse_u32(s.as_str()) {
            Ok(n) => Ok(n),
            Err(e) => Err(ConfigError::Invalid { var: name, reason: e }),
        },
    }
}

fn i64_var(name: &'static str, v: Option<String>, default: i64) -> (r: Result<i64, ConfigError>)
    ensures
        fault_view(r) == i64_value(name@, opt_view(v), default),
{
    match v {
        None => Ok(default),
        Some(s) => match parse_i64(s.as_str()) {
            Ok(n) => Ok(n),
            Err(e) => Err(ConfigError::Invalid { var: name, reason: e }),
        },
    }
}

fn text_in(t: &Vec<char>, word: &str) -> (r: bool)
    ensures
        r == (t@ == word@),
{
    let w = chars_of(word);
    crate::text::chars_equal(t, &w)
}

fn bool_var(name: &'static str, v: Option<String>, default: bool) -> (r: Result<bool, ConfigError>)
    ensures
        fault_view(r) == bool_value(name@, opt_view(v), default),
{
    match v {
        None => Ok(default),
        Some(s) => {
            let chars = chars_of(s.as_str());
            let trimmed = trim_chars(&chars);
            let t = ascii_lowercase_chars(&trimmed);
            if text_in(&t, "1") || text_in(&t, "true") || text_in(&t, "yes") || text_in(&t, "on") {
                Ok(true)
            } else if text_in(&t, "0") || text_in(&t, "false") || text_in(&t, "no") || text_in(
                &t,
                "off",
            ) || t.len() == 0 {
                Ok(false)
            } else {
                let mut reason = String::from_str("expected boolean, got `");
                let word = string_of(&t);
                reason.append(word.as_str());
                reason.append("`");
                Err(ConfigError::Invalid { var: name, reason })
            }
        },
    }
}

fn url_var(name: &'static str, v: Option<String>) -> (r: Result<String, ConfigError>)
    ensures
        match url_value(name@, opt_view(v)) {
            Ok(u) => r matches Ok(s) && s@ == u,
            Err(f) => r matches Err(e) && e@ == f,
        },
{
    match v {
        None => Err(ConfigError::Missing(name)),
        Some(s) => match parse_url(s.as_str()) {
            Ok(u) => Ok(u),
            Err(e) => Err(ConfigError::Invalid { var: name, reason: e }),
        },
    }
}

fn url_list_var(name: &'static str, v: Option<String>) -> (r: Result<Vec<String>, ConfigError>)
    ensures
        match url_list_value(name@, opt_view(v)) {
            Ok(us) => r matches Ok(urls) && urls@.len() == us.len() && forall|i: int|
                0 <= i < us.len() ==> #[trigger] urls@[i]@ == us[i],
            Err(f) => r matches Err(e) && e@ == f,
        },
{
    match v {
        None => Err(ConfigError::Missing(name)),
        Some(s) => parse_url_list(name, s.as_str()),
    }
}

/// What a read yields as a fault, if any.
pub open spec fn fault_of<T>(r: Result<T, ConfigFault>) -> Option<ConfigFault> {
    match r {
        Ok(_) => None,
        Err(f) => Some(f),
    }
}

/// No check in `checks` failed.
pub open spec fn no_faults(checks: Seq<Option<ConfigFault>>) -> bool {
    forall|i: int| 0 <= i < checks.len() ==> #[trigger] checks[i] is None
}

/// `f` is the fault of the first check that failed.
pub open spec fn first_fault_is(checks: Seq<Option<ConfigFault>>, f: ConfigFault) -> bool {
    exists|i: int|
        0 <= i < checks.len() && checks[i] == Some(f) && no_faults(#[trigger] checks.take(i))
}

proof fn no_faults_extend(checks: Seq<Option<ConfigFault>>, k: int)
    requires
        0 <= k < checks.len(),
        no_faults(checks.take(k)),
        checks[k] is None,
    ensures
        no_faults(checks.take(k + 1)),
{
    assert forall|i: int| 0 <= i < k + 1 implies #[trigger] checks.take(k + 1)[i] is None by {
        if i < k {
            assert(checks.take(k + 1)[i] == checks.take(k)[i]);
        }
    }
}

proof fn no_faults_concat(a: Seq<Option<ConfigFault>>, b: Seq<Option<ConfigFault>>, k: int)
    requires
        no_faults(a),
        0 <= k <= b.len(),
        no_faults(b.take(k)),
    ensures
        no_faults((a + b).take(a.len() + k)),
{
    assert forall|i: int| 0 <= i < a.len() + k implies #[trigger] (a + b).take(a.len() + k)[i] is None by {
        if i >= a.len() {
            assert(b.take(k)[i - a.len()] is None);
        } else {
            assert(a[i] is None);
        }
    }
}

proof fn first_fault_after(a: Seq<Option<ConfigFault>>, b: Seq<Option<ConfigFault>>, f: ConfigFault)
    requires
        no_faults(a),
        first_fault_is(b, f),
    ensures
        first_fault_is(a + b, f),
{
    let i = choose|i: int| 0 <= i < b.len() && b[i] == Some(f) && no_faults(#[trigger] b.take(i));
    no_faults_concat(a, b, i);
    assert((a + b)[a.len() + i] == Some(f));
}

/// The checks made when slash commands are enabled, in the order they are made.
pub open spec fn commands_checks(env: EnvVars) -> Seq<Option<ConfigFault>> {
    seq![
        fault_of(required_text("DISCORD_BOT_TOKEN"@, env.lookup("DISCORD_BOT_TOKEN"@))),
        fault_of(required_u64_value("DISCORD_APPLICATION_ID"@, env.lookup("DISCORD_APPLICATION_ID"@))),
        fault_of(optional_u64_value("DISCORD_GUILD_ID"@, env.lookup("DISCORD_GUILD_ID"@))),
        fault_of(u32_value("MAX_SUBSCRIPTIONS_PER_USER"@, env.lookup("MAX_SUBSCRIPTIONS_PER_USER"@), 25)),
        fault_of(i64_value("DM_FAILURE_AUTO_UNSUB"@, env.lookup("DM_FAILURE_AUTO_UNSUB"@), 3)),
    ]
}

/// Settings of the slash-command runtime.
pub struct CommandsConfig {
    pub bot_token: String,
    pub application_id: u64,
    /// When set, commands are registered for this guild only; otherwise
    /// globally.
    pub guild_id: Option<u64>,
    pub max_subscriptions_per_user: u32,
    /// Consecutive DM refusals after which a subscription is given up.
    pub dm_failure_auto_unsub: i64,
}

impl CommandsConfig {
    /// Each field holds what its variable gives.
    pub open spec fn read_from(self, env: EnvVars) -> bool {
        &&& env.lookup("DISCORD_BOT_TOKEN"@) == Some(self.bot_token@)
        &&& required_u64_value("DISCORD_APPLICATION_ID"@, env.lookup("DISCORD_APPLICATION_ID"@))
            == Ok::<u64, ConfigFault>(self.application_id)
        &&& optional_u64_value("DISCORD_GUILD_ID"@, env.lookup("DISCORD_GUILD_ID"@)) == Ok::<
            Option<u64>,
            ConfigFault,
        >(self.guild_id)
        &&& u32_value("MAX_SUBSCRIPTIONS_PER_USER"@, env.lookup("MAX_SUBSCRIPTIONS_PER_USER"@), 25)
            == Ok::<u32, ConfigFault>(self.max_subscriptions_per_user)
        &&& i64_value("DM_FAILURE_AUTO_UNSUB"@, env.lookup("DM_FAILURE_AUTO_UNSUB"@), 3) == Ok::<
            i64,
            ConfigFault,
        >(self.dm_failure_auto_unsub)
    }

    /// Reads the slash-command settings; the error is that of the first
    /// variable that is missing or malformed.
    pub fn from_vars(env: &EnvVars) -> (r: Result<CommandsConfig, ConfigError>)
        ensures
            r is Ok <==> no_faults(commands_checks(*env)),
            r matches Ok(c) ==> c.read_from(*env),
            r matches Err(e) ==> first_fault_is(commands_checks(*env), e@),
    {
        let ghost checks = commands_checks(*env);
        assert(checks.take(0) =~= Seq::<Option<ConfigFault>>::empty());
        let bot_token = match env.get("DISCORD_BOT_TOKEN") {
            Some(t) => t,
            None => {
                assert(checks[0] is Some);
                return Err(ConfigError::Missing("DISCORD_BOT_TOKEN"));
            },
        };
        proof { no_faults_extend(checks, 0); }
        let application_id = match u64_var("DISCORD_APPLICATION_ID", env.get("DISCORD_APPLICATION_ID")) {
            Ok(n) => n,
            Err(e) => {
                assert(checks[1] == Some(e@));
                return Err(e);
            },
        };
        proof { no_faults_extend(checks, 1); }
        let guild_id = match optional_u64_var("DISCORD_GUILD_ID", env.get("DISCORD_GUILD_ID")) {
            Ok(n) => n,
            Err(e) => {
                assert(checks[2] == Some(e@));
                return Err(e);
            },
        };
        proof { no_faults_extend(checks, 2); }
        let max_subscriptions_per_user = match u32_var(
            "MAX_SUBSCRIPTIONS_PER_USER",
            env.get("MAX_SUBSCRIPTIONS_PER_USER"),
            25,
        ) {
            Ok(n) => n,
            Err(e) => {
                assert(checks[3] == Some(e@));
                return Err(e);
            },
        };
        proof { no_faults_extend(checks, 3); }
        let dm_failure_auto_unsub = match i64_var(
            "DM_FAILURE_AUTO_UNSUB",
            env.get("DM_FAILURE_AUTO_UNSUB"),
            3,
        ) {
            Ok(n) => n,
            Err(e) => {
                assert(checks[4] == Some(e@));
                return Err(e);
            },
        };
        proof {
            no_faults_extend(checks, 4);
            assert(checks.take(5) =~= checks);
        }
        Ok(CommandsConfig {
            bot_token,
            application_id,
            guild_id,
            max_subscriptions_per_user,
            dm_failure_auto_unsub,
        })
    }
}

proof fn no_faults_join(a: Seq<Option<ConfigFault>>, b: Seq<Option<ConfigFault>>)
    requires
        no_faults(a),
        no_faults(b),
    ensures
        no_faults(a + b),
{
    assert forall|i: int| 0 <= i < (a + b).len() implies #[trigger] (a + b)[i] is None by {
        if i < a.len() {
            assert(a[i] is None);
        } else {
            assert(b[i - a.len()] is None);
        }
    }
}

proof fn first_fault_before(a: Seq<Option<ConfigFault>>, b: Seq<Option<ConfigFault>>, f: ConfigFault)
    requires
        first_fault_is(a, f),
    ensures
        first_fault_is(a + b, f),
{
    let i = choose|i: int| 0 <= i < a.len() && a[i] == Some(f) && no_faults(#[trigger] a.take(i));
    assert((a + b).take(i) =~= a.take(i));
    assert((a + b)[i] == a[i]);
}

/// A percentage from 1 to 100, or `default` when the variable is unset.
pub open spec fn pct_value(name: Seq<char>, v: Option<Seq<char>>, default: u32) -> Result<u32, ConfigFault> {
    match u32_value(name, v, default) {
        Ok(p) => if 1 <= p <= 100 {
            Ok(p)
        } else {
            Err(ConfigFault::Invalid(name, "expected a percentage from 1 to 100, got "@ + decimal(p as nat)))
        },
        Err(f) => Err(f),
    }
}

fn pct_var(name: &'static str, v: Option<String>, default: u32) -> (r: Result<u32, ConfigError>)
    ensures
        fault_view(r) == pct_value(name@, opt_view(v), default),
{
    let p = match u32_var(name, v, default) {
        Ok(p) => p,
        Err(e) => return Err(e),
    };
    if 1 <= p && p <= 100 {
        Ok(p)
    } else {
        let mut reason = String::from_str("expected a percentage from 1 to 100, got ");
        let t = u64_text(p as u64);
        reason.append(t.as_str());
        Err(ConfigError::Invalid { var: name, reason })
    }
}

/// Whether the reward-call watch is switched on (it is unless disabled).
pub open spec fn watch_enabled(env: EnvVars) -> bool {
    bool_value("REWARD_WATCH_ENABLED"@, env.lookup("REWARD_WATCH_ENABLED"@), true) == Ok::<bool, ConfigFault>(true)
}

/// The checks made for the reward-call watch, in order.
pub open spec fn watch_checks(env: EnvVars) -> Seq<Option<ConfigFault>> {
    seq![fault_of(bool_value("REWARD_WATCH_ENABLED"@, env.lookup("REWARD_WATCH_ENABLED"@), true))] + if watch_enabled(env) {
        seq![
            fault_of(secs_value("REWARD_WATCH_POLL_INTERVAL_SECS"@, env.lookup("REWARD_WATCH_POLL_INTERVAL_SECS"@), 60)),
            fault_of(pct_value("REWARD_WATCH_FIRST_ALERT_PCT"@, env.lookup("REWARD_WATCH_FIRST_ALERT_PCT"@), 25)),
            fault_of(pct_value("REWARD_WATCH_REALERT_STEP_PCT"@, env.lookup("REWARD_WATCH_REALERT_STEP_PCT"@), 10)),
            fault_of(pct_value("REWARD_WATCH_DIGEST_PCT"@, env.lookup("REWARD_WATCH_DIGEST_PCT"@), 90)),
            fault_of(secs_value("ROUND_LENGTH_BLOCKS"@, env.lookup("ROUND_LENGTH_BLOCKS"@), 6377)),
        ]
    } else {
        Seq::empty()
    }
}

/// Settings of the reward-call watch.
pub struct RewardWatchConfig {
    pub poll_interval_secs: u64,
    /// Round completion, in percent, of the first ladder alert.
    pub first_alert_pct: u32,
    /// Percent of round completion between later ladder alerts.
    pub realert_step_pct: u32,
    /// Round completion, in percent, from which the public digest is due.
    pub digest_pct: u32,
    pub round_length_blocks: u64,
}

impl RewardWatchConfig {
    /// Each field holds what its variable gives.
    pub open spec fn read_from(self, env: EnvVars) -> bool {
        &&& secs_value("REWARD_WATCH_POLL_INTERVAL_SECS"@, env.lookup("REWARD_WATCH_POLL_INTERVAL_SECS"@), 60)
            == Ok::<u64, ConfigFault>(self.poll_interval_secs)
        &&& pct_value("REWARD_WATCH_FIRST_ALERT_PCT"@, env.lookup("REWARD_WATCH_FIRST_ALERT_PCT"@), 25)
            == Ok::<u32, ConfigFault>(self.first_alert_pct)
        &&& pct_value("REWARD_WATCH_REALERT_STEP_PCT"@, env.lookup("REWARD_WATCH_REALERT_STEP_PCT"@), 10)
            == Ok::<u32, ConfigFault>(self.realert_step_pct)
        &&& pct_value("REWARD_WATCH_DIGEST_PCT"@, env.lookup("REWARD_WATCH_DIGEST_PCT"@), 90)
            == Ok::<u32, ConfigFault>(self.digest_pct)
        &&& secs_value("ROUND_LENGTH_BLOCKS"@, env.lookup("ROUND_LENGTH_BLOCKS"@), 6377)
            == Ok::<u64, ConfigFault>(self.round_length_blocks)
    }

    /// Reads the watch settings: `None` when the watch is disabled; the
    /// error is that of the first variable that is malformed.
    pub fn from_vars(env: &EnvVars) -> (r: Result<Option<RewardWatchConfig>, ConfigError>)
        ensures
            r is Ok <==> no_faults(watch_checks(*env)),
            r matches Ok(w) ==> ((w is Some) == watch_enabled(*env) && (w matches Some(c) ==> c.read_from(*env))),
            r matches Err(e) ==> first_fault_is(watch_checks(*env), e@),
    {
        let ghost checks = watch_checks(*env);
        assert(checks.take(0) =~= Seq::<Option<ConfigFault>>::empty());
        let enabled = match bool_var("REWARD_WATCH_ENABLED", env.get("REWARD_WATCH_ENABLED"), true) {
            Ok(b) => b,
            Err(e) => {
                assert(checks[0] == Some(e@));
                return Err(e);
            },
        };
        proof { no_faults_extend(checks, 0); }
        if !enabled {
            assert(checks.take(1) =~= checks);
            return Ok(None);
        }
        let poll_interval_secs = match secs_var(
            "REWARD_WATCH_POLL_INTERVAL_SECS",
            env.get("REWARD_WATCH_POLL_INTERVAL_SECS"),
            60,
        ) {
            Ok(n) => n,
            Err(e) => {
                assert(checks[1] == Some(e@));
                return Err(e);
            },
        };
        proof { no_faults_extend(checks, 1); }
        let first_alert_pct = match pct_var(
            "REWARD_WATCH_FIRST_ALERT_PCT",
            env.get("REWARD_WATCH_FIRST_ALERT_PCT"),
            25,
        ) {
            Ok(n) => n,
            Err(e) => {
                assert(checks[2] == Some(e@));
                return Err(e);
            },
        };
        proof { no_faults_extend(checks, 2); }
        let realert_step_pct = match pct_var(
            "REWARD_WATCH_REALERT_STEP_PCT",
            env.get("REWARD_WATCH_REALERT_STEP_PCT"),
            10,
        ) {
            Ok(n) => n,
            Err(e) => {
                assert(checks[3] == Some(e@));
                return Err(e);
            },
        };
        proof { no_faults_extend(checks, 3); }
        let digest_pct = match pct_var("REWARD_WATCH_DIGEST_PCT", env.get("REWARD_WATCH_DIGEST_PCT"), 90) {
            Ok(n) => n,
            Err(e) => {
                assert(checks[4] == Some(e@));
                return Err(e);
            },
        };
        proof { no_faults_extend(checks, 4); }
        let round_length_blocks = match secs_var(
            "ROUND_LENGTH_BLOCKS",
            env.get("ROUND_LENGTH_BLOCKS"),
            6377,
        ) {
            Ok(n) => n,
            Err(e) => {
                assert(checks[5] == Some(e@));
                return Err(e);
            },
        };
        proof {
            no_faults_extend(checks, 5);
            assert(checks.take(6) =~= checks);
        }
        Ok(Some(RewardWatchConfig {
            poll_interval_secs,
            first_alert_pct,
            realert_step_pct,
            digest_pct,
            round_length_blocks,
        }))
    }
}

/// The verdict on the database URL once it is known to be set.
pub open spec fn database_check(url: Option<Seq<char>>, in_container: bool) -> Option<ConfigFault> {
    match url {
        Some(u) => if database_url_rejected(u, in_container) {
            Some(ConfigFault::Invalid("DATABASE_URL"@, relative_path_reason(u)))
        } else {
            None
        },
        None => None,
    }
}

/// The checks made before the slash-command settings, in the order they
/// are made.
pub open spec fn base_checks(env: EnvVars, in_container: bool) -> Seq<Option<ConfigFault>> {
    seq![
        fault_of(url_value("EXPLORER_BASE_URL"@, env.lookup("EXPLORER_BASE_URL"@))),
        fault_of(url_list_value("DISCORD_WEBHOOK_URL"@, env.lookup("DISCORD_WEBHOOK_URL"@))),
        fault_of(required_text("DATABASE_URL"@, env.lookup("DATABASE_URL"@))),
        database_check(env.lookup("DATABASE_URL"@), in_container),
        fault_of(secs_value("EVENT_POLL_INTERVAL_SECS"@, env.lookup("EVENT_POLL_INTERVAL_SECS"@), 60)),
        fault_of(secs_value("DIGEST_WINDOW_SECS"@, env.lookup("DIGEST_WINDOW_SECS"@), 900)),
        fault_of(u32_value("DIGEST_FETCH_LIMIT"@, env.lookup("DIGEST_FETCH_LIMIT"@), 500)),
        fault_of(bool_value("WEBHOOK_POST_ENABLED"@, env.lookup("WEBHOOK_POST_ENABLED"@), true)),
        fault_of(secs_value("SUMMARY_POLL_INTERVAL_SECS"@, env.lookup("SUMMARY_POLL_INTERVAL_SECS"@), 3600)),
        fault_of(secs_value("SUMMARY_SETTLE_DAILY_SECS"@, env.lookup("SUMMARY_SETTLE_DAILY_SECS"@), 21600)),
        fault_of(secs_value("SUMMARY_SETTLE_WEEKLY_SECS"@, env.lookup("SUMMARY_SETTLE_WEEKLY_SECS"@), 43200)),
        fault_of(secs_value("SUMMARY_SETTLE_MONTHLY_SECS"@, env.lookup("SUMMARY_SETTLE_MONTHLY_SECS"@), 86400)),
        fault_of(secs_value("SUMMARY_MAX_DEFER_SECS"@, env.lookup("SUMMARY_MAX_DEFER_SECS"@), 172800)),
        fault_of(secs_value("REWARD_POLL_INTERVAL_SECS"@, env.lookup("REWARD_POLL_INTERVAL_SECS"@), 60)),
        fault_of(secs_value("DELEGATOR_POLL_INTERVAL_SECS"@, env.lookup("DELEGATOR_POLL_INTERVAL_SECS"@), 60)),
        fault_of(secs_value("CUT_CHANGE_POLL_INTERVAL_SECS"@, env.lookup("CUT_CHANGE_POLL_INTERVAL_SECS"@), 60)),
        fault_of(secs_value("SUBSCRIBER_DIGEST_INTERVAL_SECS"@, env.lookup("SUBSCRIBER_DIGEST_INTERVAL_SECS"@), 900)),
        fault_of(secs_value("HTTP_TIMEOUT_SECS"@, env.lookup("HTTP_TIMEOUT_SECS"@), 30)),
        fault_of(bool_value("COMMANDS_ENABLED"@, env.lookup("COMMANDS_ENABLED"@), false)),
    ]
}

/// Whether the slash-command runtime is switched on.
pub open spec fn commands_enabled(env: EnvVars) -> bool {
    bool_value("COMMANDS_ENABLED"@, env.lookup("COMMANDS_ENABLED"@), false) == Ok::<bool, ConfigFault>(true)
}

/// Every check made, in order.
pub open spec fn config_checks(env: EnvVars, in_container: bool) -> Seq<Option<ConfigFault>> {
    if commands_enabled(env) {
        base_checks(env, in_container) + commands_checks(env) + watch_checks(env)
    } else {
        base_checks(env, in_container)
    }
}

/// The bot's settings. Durations are in seconds; URLs are kept as their
/// serialization.
pub struct Config {
    pub explorer_base_url: String,
    /// One or more webhook URLs, each receiving every public post.
    pub discord_webhook_urls: Vec<String>,
    pub database_url: String,
    pub event_poll_interval_secs: u64,
    pub digest_window_secs: u64,
    pub digest_fetch_limit: u32,
    /// When false nothing is posted to the webhooks; events still poll.
    pub webhook_post_enabled: bool,
    pub summary_poll_interval_secs: u64,
    pub summary_readiness: SummaryReadiness,
    pub reward_poll_interval_secs: u64,
    pub delegator_poll_interval_secs: u64,
    pub cut_change_poll_interval_secs: u64,
    pub subscriber_digest_interval_secs: u64,
    pub http_timeout_secs: u64,
    pub user_agent: String,
    /// Address of the metrics endpoint; `None` disables it.
    pub metrics_bind: Option<String>,
    /// `None` when slash commands are disabled.
    pub commands: Option<CommandsConfig>,
    /// `None` when slash commands or the reward-call watch are disabled.
    pub reward_watch: Option<RewardWatchConfig>,
}

impl Config {
    /// Each field holds what its variable gives.
    pub open spec fn read_from(self, env: EnvVars) -> bool {
        &&& url_value("EXPLORER_BASE_URL"@, env.lookup("EXPLORER_BASE_URL"@)) == Ok::<
            Seq<char>,
            ConfigFault,
        >(self.explorer_base_url@)
        &&& url_list_value("DISCORD_WEBHOOK_URL"@, env.lookup("DISCORD_WEBHOOK_URL"@)) matches Ok(us)
            && self.discord_webhook_urls@.len() == us.len() && forall|i: int|
            0 <= i < us.len() ==> #[trigger] self.discord_webhook_urls@[i]@ == us[i]
        &&& env.lookup("DATABASE_URL"@) == Some(self.database_url@)
        &&& secs_value("EVENT_POLL_INTERVAL_SECS"@, env.lookup("EVENT_POLL_INTERVAL_SECS"@), 60)
            == Ok::<u64, ConfigFault>(self.event_poll_interval_secs)
        &&& secs_value("DIGEST_WINDOW_SECS"@, env.lookup("DIGEST_WINDOW_SECS"@), 900) == Ok::<
            u64,
            ConfigFault,
        >(self.digest_window_secs)
        &&& u32_value("DIGEST_FETCH_LIMIT"@, env.lookup("DIGEST_FETCH_LIMIT"@), 500) == Ok::<
            u32,
            ConfigFault,
        >(self.digest_fetch_limit)
        &&& bool_value("WEBHOOK_POST_ENABLED"@, env.lookup("WEBHOOK_POST_ENABLED"@), true) == Ok::<
            bool,
            ConfigFault,
        >(self.webhook_post_enabled)
        &&& secs_value("SUMMARY_POLL_INTERVAL_SECS"@, env.lookup("SUMMARY_POLL_INTERVAL_SECS"@), 3600)
            == Ok::<u64, ConfigFault>(self.summary_poll_interval_secs)
        &&& secs_value("SUMMARY_SETTLE_DAILY_SECS"@, env.lookup("SUMMARY_SETTLE_DAILY_SECS"@), 21600)
            == Ok::<u64, ConfigFault>(self.summary_readiness.settle_daily_secs)
        &&& secs_value("SUMMARY_SETTLE_WEEKLY_SECS"@, env.lookup("SUMMARY_SETTLE_WEEKLY_SECS"@), 43200)
            == Ok::<u64, ConfigFault>(self.summary_readiness.settle_weekly_secs)
        &&& secs_value("SUMMARY_SETTLE_MONTHLY_SECS"@, env.lookup("SUMMARY_SETTLE_MONTHLY_SECS"@), 86400)
            == Ok::<u64, ConfigFault>(self.summary_readiness.settle_monthly_secs)
        &&& secs_value("SUMMARY_MAX_DEFER_SECS"@, env.lookup("SUMMARY_MAX_DEFER_SECS"@), 172800)
            == Ok::<u64, ConfigFault>(self.summary_readiness.max_defer_secs)
        &&& secs_value("REWARD_POLL_INTERVAL_SECS"@, env.lookup("REWARD_POLL_INTERVAL_SECS"@), 60)
            == Ok::<u64, ConfigFault>(self.reward_poll_interval_secs)
        &&& secs_value("DELEGATOR_POLL_INTERVAL_SECS"@, env.lookup("DELEGATOR_POLL_INTERVAL_SECS"@), 60)
            == Ok::<u64, ConfigFault>(self.delegator_poll_interval_secs)
        &&& secs_value("CUT_CHANGE_POLL_INTERVAL_SECS"@, env.lookup("CUT_CHANGE_POLL_INTERVAL_SECS"@), 60)
            == Ok::<u64, ConfigFault>(self.cut_change_poll_interval_secs)
        &&& secs_value(
            "SUBSCRIBER_DIGEST_INTERVAL_SECS"@,
            env.lookup("SUBSCRIBER_DIGEST_INTERVAL_SECS"@),
            900,
        ) == Ok::<u64, ConfigFault>(self.subscriber_digest_interval_secs)
        &&& secs_value("HTTP_TIMEOUT_SECS"@, env.lookup("HTTP_TIMEOUT_SECS"@), 30) == Ok::<
            u64,
            ConfigFault,
        >(self.http_timeout_secs)
        &&& self.user_agent@ == match env.lookup("USER_AGENT"@) {
            Some(u) => u,
            None => "livepeer-payout-bot/0.1"@,
        }
        &&& opt_view(self.metrics_bind) == env.lookup("METRICS_BIND"@)
        &&& (self.commands is Some) == commands_enabled(env)
        &&& (self.commands matches Some(c) ==> c.read_from(env))
        &&& (self.reward_watch is Some) == (commands_enabled(env) && watch_enabled(env))
        &&& (self.reward_watch matches Some(w) ==> w.read_from(env))
    }

    /// Reads every setting; the error is that of the first variable that is
    /// missing or malformed. `in_container` says whether the bot runs in a
    /// container, where only an absolute SQLite path is accepted.
    #[verifier::rlimit(40)]
    pub fn from_vars(env: &EnvVars, in_container: bool) -> (r: Result<Config, ConfigError>)
        ensures
            r is Ok <==> no_faults(config_checks(*env, in_container)),
            r matches Ok(c) ==> c.read_from(*env),
            r matches Err(e) ==> first_fault_is(config_checks(*env, in_container), e@),
    {
        let ghost base = base_checks(*env, in_container);
        let ghost checks = config_checks(*env, in_container);
        assert(base.take(0) =~= Seq::<Option<ConfigFault>>::empty());
        let explorer_base_url = match url_var("EXPLORER_BASE_URL", env.get("EXPLORER_BASE_URL")) {
            Ok(u) => u,
            Err(e) => {
                proof { Self::stop_at(*env, in_container, 0, e@); }
                return Err(e);
            },
        };
        proof { no_faults_extend(base, 0); }
        let discord_webhook_urls = match url_list_var(
            "DISCORD_WEBHOOK_URL",
            env.get("DISCORD_WEBHOOK_URL"),
        ) {
            Ok(u) => u,
            Err(e) => {
                proof { Self::stop_at(*env, in_container, 1, e@); }
                return Err(e);
            },
        };
        proof { no_faults_extend(base, 1); }
        let database_url = match env.get("DATABASE_URL") {
            Some(u) => u,
            None => {
                proof { Self::stop_at(*env, in_container, 2, ConfigFault::Missing("DATABASE_URL"@)); }
                return Err(ConfigError::Missing("DATABASE_URL"));
            },
        };
        proof { no_faults_extend(base, 2); }
        match validate_database_url(database_url.as_str(), in_container) {
            Ok(()) => {},
            Err(e) => {
                proof { Self::stop_at(*env, in_container, 3, e@); }
                return Err(e);
            },
        }
        proof { no_faults_extend(base, 3); }
        let event_poll_interval_secs = match secs_var(
            "EVENT_POLL_INTERVAL_SECS",
            env.get("EVENT_POLL_INTERVAL_SECS"),
            60,
        ) {
            Ok(n) => n,
            Err(e) => {
                proof { Self::stop_at(*env, in_container, 4, e@); }
                return Err(e);
            },
        };
        proof { no_faults_extend(base, 4); }
        let digest_window_secs = match secs_var("DIGEST_WINDOW_SECS", env.get("DIGEST_WINDOW_SECS"), 900) {
            Ok(n) => n,
            Err(e) => {
                proof { Self::stop_at(*env, in_container, 5, e@); }
                return Err(e);
            },
        };
        proof { no_faults_extend(base, 5); }
        let digest_fetch_limit = match u32_var("DIGEST_FETCH_LIMIT", env.get("DIGEST_FETCH_LIMIT"), 500) {
            Ok(n) => n,
            Err(e) => {
                proof { Self::stop_at(*env, in_container, 6, e@); }
                return Err(e);
            },
        };
        proof { no_faults_extend(base, 6); }
        let webhook_post_enabled = match bool_var(
            "WEBHOOK_POST_ENABLED",
            env.get("WEBHOOK_POST_ENABLED"),
            true,
        ) {
            Ok(b) => b,
            Err(e) => {
                proof { Self::stop_at(*env, in_container, 7, e@); }
                return Err(e);
            },
        };
        proof { no_faults_extend(base, 7); }
        let summary_poll_interval_secs = match secs_var(
            "SUMMARY_POLL_INTERVAL_SECS",
            env.get("SUMMARY_POLL_INTERVAL_SECS"),
            3600,
        ) {
            Ok(n) => n,
            Err(e) => {
                proof { Self::stop_at(*env, in_container, 8, e@); }
                return Err(e);
            },
        };
        proof { no_faults_extend(base, 8); }
        let settle_daily_secs = match secs_var(
            "SUMMARY_SETTLE_DAILY_SECS",
            env.get("SUMMARY_SETTLE_DAILY_SECS"),
            21600,
        ) {
            Ok(n) => n,
            Err(e) => {
                proof { Self::stop_at(*env, in_container, 9, e@); }
                return Err(e);
            },
        };
        proof { no_faults_extend(base, 9); }
        let settle_weekly_secs = match secs_var(
            "SUMMARY_SETTLE_WEEKLY_SECS",
            env.get("SUMMARY_SETTLE_WEEKLY_SECS"),
            43200,
        ) {
            Ok(n) => n,
            Err(e) => {
                proof { Self::stop_at(*env, in_container, 10, e@); }
                return Err(e);
            },
        };
        proof { no_faults_extend(base, 10); }
        let settle_monthly_secs = match secs_var(
            "SUMMARY_SETTLE_MONTHLY_SECS",
            env.get("SUMMARY_SETTLE_MONTHLY_SECS"),
            86400,
        ) {
            Ok(n) => n,
            Err(e) => {
                proof { Self::stop_at(*env, in_container, 11, e@); }
                return Err(e);
            },
        };
        proof { no_faults_extend(base, 11); }
        let max_defer_secs = match secs_var(
            "SUMMARY_MAX_DEFER_SECS",
            env.get("SUMMARY_MAX_DEFER_SECS"),
            172800,
        ) {
            Ok(n) => n,
            Err(e) => {
                proof { Self::stop_at(*env, in_container, 12, e@); }
                return Err(e);
            },
        };
        proof { no_faults_extend(base, 12); }
        let reward_poll_interval_secs = match secs_var(
            "REWARD_POLL_INTERVAL_SECS",
            env.get("REWARD_POLL_INTERVAL_SECS"),
            60,
        ) {
            Ok(n) => n,
            Err(e) => {
                proof { Self::stop_at(*env, in_container, 13, e@); }
                return Err(e);
            },
        };
        proof { no_faults_extend(base, 13); }
        let delegator_poll_interval_secs = match secs_var(
            "DELEGATOR_POLL_INTERVAL_SECS",
            env.get("DELEGATOR_POLL_INTERVAL_SECS"),
            60,
        ) {
            Ok(n) => n,
            Err(e) => {
                proof { Self::stop_at(*env, in_container, 14, e@); }
                return Err(e);
            },
        };
        proof { no_faults_extend(base, 14); }
        let cut_change_poll_interval_secs = match secs_var(
            "CUT_CHANGE_POLL_INTERVAL_SECS",
            env.get("CUT_CHANGE_POLL_INTERVAL_SECS"),
            60,
        ) {
            Ok(n) => n,
            Err(e) => {
                proof { Self::stop_at(*env, in_container, 15, e@); }
                return Err(e);
            },
        };
        proof { no_faults_extend(base, 15); }
        let subscriber_digest_interval_secs = match secs_var(
            "SUBSCRIBER_DIGEST_INTERVAL_SECS",
            env.get("SUBSCRIBER_DIGEST_INTERVAL_SECS"),
            900,
        ) {
            Ok(n) => n,
            Err(e) => {
                proof { Self::stop_at(*env, in_container, 16, e@); }
                return Err(e);
            },
        };
        proof { no_faults_extend(base, 16); }
        let http_timeout_secs = match secs_var("HTTP_TIMEOUT_SECS", env.get("HTTP_TIMEOUT_SECS"), 30) {
            Ok(n) => n,
            Err(e) => {
                proof { Self::stop_at(*env, in_container, 17, e@); }
                return Err(e);
            },
        };
        proof { no_faults_extend(base, 17); }
        let user_agent = match env.get("USER_AGENT") {
            Some(u) => u,
            None => String::from_str("livepeer-payout-bot/0.1"),
        };
        let metrics_bind = env.get("METRICS_BIND");
        let enabled = match bool_var("COMMANDS_ENABLED", env.get("COMMANDS_ENABLED"), false) {
            Ok(b) => b,
            Err(e) => {
                proof { Self::stop_at(*env, in_container, 18, e@); }
                return Err(e);
            },
        };
        proof {
            no_faults_extend(base, 18);
            assert(base.take(19) =~= base);
        }
        let (commands, reward_watch) = if enabled {
            let c = match CommandsConfig::from_vars(env) {
                Ok(c) => c,
                Err(e) => {
                    proof {
                        first_fault_after(base, commands_checks(*env), e@);
                        first_fault_before(base + commands_checks(*env), watch_checks(*env), e@);
                    }
                    return Err(e);
                },
            };
            proof { no_faults_join(base, commands_checks(*env)); }
            let w = match RewardWatchConfig::from_vars(env) {
                Ok(w) => w,
                Err(e) => {
                    proof { first_fault_after(base + commands_checks(*env), watch_checks(*env), e@); }
                    return Err(e);
                },
            };
            proof { no_faults_join(base + commands_checks(*env), watch_checks(*env)); }
            (Some(c), w)
        } else {
            (None, None)
        };
        Ok(Config {
            explorer_base_url,
            discord_webhook_urls,
            database_url,
            event_poll_interval_secs,
            digest_window_secs,
            digest_fetch_limit,
            webhook_post_enabled,
            summary_poll_interval_secs,
            summary_readiness: SummaryReadiness {
                settle_daily_secs,
                settle_weekly_secs,
                settle_monthly_secs,
                max_defer_secs,
            },
            reward_poll_interval_secs,
            delegator_poll_interval_secs,
            cut_change_poll_interval_secs,
            subscriber_digest_interval_secs,
            http_timeout_secs,
            user_agent,
            metrics_bind,
            commands,
            reward_watch,
        })
    }

    /// A failure at base check `k`, after none before it, is the first
    /// failure of all the checks.
    proof fn stop_at(env: EnvVars, in_container: bool, k: int, f: ConfigFault)
        requires
            0 <= k < 19,
            no_faults(base_checks(env, in_container).take(k)),
            base_checks(env, in_container)[k] == Some(f),
        ensures
            first_fault_is(config_checks(env, in_container), f),
    {
        let base = base_checks(env, in_container);
        let checks = config_checks(env, in_container);
        assert(checks.take(k) =~= base.take(k));
        assert(checks[k] == base[k]);
    }
}

} // verus!
