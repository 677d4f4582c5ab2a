//! Integer parsing as `str::parse` does it, for the integer types the bot
//! reads from text.

use vstd::prelude::*;
use crate::text::{decimal, digit_char, signed_decimal};

verus! {

/// ASCII decimal digit.
pub open spec fn is_digit(c: char) -> bool {
    48 <= (c as u32) <= 57
}

/// One or more ASCII decimal digits.
pub open spec fn all_digits(s: Seq<char>) -> bool {
    s.len() > 0 && forall|i: int| 0 <= i < s.len() ==> is_digit(#[trigger] s[i])
}

/// Value of a string of decimal digits.
pub open spec fn digits_value(s: Seq<char>) -> int
    decreases s.len(),
{
    if s.len() == 0 {
        0
    } else {
        digits_value(s.drop_last()) * 10 + ((s.last() as u32) - 48)
    }
}

/// What `str::parse` accepts for an unsigned integer: an optional `+`
/// followed by one or more ASCII digits.
pub open spec fn unsigned_syntax(s: Seq<char>) -> bool {
    all_digits(s) || (s.len() > 0 && s[0] == '+' && all_digits(s.drop_first()))
}

/// Value of a string that `unsigned_syntax` accepts.
pub open spec fn unsigned_value(s: Seq<char>) -> int {
    if s.len() > 0 && s[0] == '+' {
        digits_value(s.drop_first())
    } else {
        digits_value(s)
    }
}

/// What `str::parse` accepts for a signed integer: an optional `+` or `-`
/// followed by one or more ASCII digits.
pub open spec fn signed_syntax(s: Seq<char>) -> bool {
    unsigned_syntax(s) || (s.len() > 0 && s[0] == '-' && all_digits(s.drop_first()))
}

/// Value of a string that `signed_syntax` accepts.
pub open spec fn signed_value(s: Seq<char>) -> int {
    if s.len() > 0 && s[0] == '-' {
        -digits_value(s.drop_first())
    } else {
        unsigned_value(s)
    }
}

/// Text of the error `str::parse::<u64>` reports for `s`.
pub uninterp spec fn u64_parse_error(s: Seq<char>) -> Seq<char>;

/// Text of the error `str::parse::<u32>` reports for `s`.
pub uninterp spec fn u32_parse_error(s: Seq<char>) -> Seq<char>;

/// Text of the error `str::parse::<i64>` reports for `s`.
pub uninterp spec fn i64_parse_error(s: Seq<char>) -> Seq<char>;

/// Calls `str::parse::<u64>`. As its documentation states, it succeeds
/// exactly on an optional `+` followed by digits whose value fits, and
/// returns that value; the error's text is named, not stated.
#[verifier::external_body]
pub(crate) fn parse_u64(s: &str) -> (r: Result<u64, String>)
    ensures
        r is Ok <==> (unsigned_syntax(s@) && unsigned_value(s@) <= u64::MAX),
        r matches Ok(v) ==> v == unsigned_value(s@),
        r matches Err(e) ==> e@ == u64_parse_error(s@),
{
    match s.parse::<u64>() {
        Ok(v) => Ok(v),
        Err(e) => Err(e.to_string()),
    }
}

/// Calls `str::parse::<u32>`; as `parse_u64`, with the bound of `u32`.
#[verifier::external_body]
pub(crate) fn parse_u32(s: &str) -> (r: Result<u32, String>)
    ensures
        r is Ok <==> (unsigned_syntax(s@) && unsigned_value(s@) <= u32::MAX),
        r matches Ok(v) ==> v == unsigned_value(s@),
        r matches Err(e) ==> e@ == u32_parse_error(s@),
{
    match s.parse::<u32>() {
        Ok(v) => Ok(v),
        Err(e) => Err(e.to_string()),
    }
}

/// Calls `str::parse::<i64>`. As its documentation states, it succeeds
/// exactly on an optional `+` or `-` followed by digits whose value fits,
/// and returns that value; the error's text is named, not stated.
#[verifier::external_body]
pub(crate) fn parse_i64(s: &str) -> (r: Result<i64, String>)
    ensures
        r is Ok <==> (signed_syntax(s@) && i64::MIN <= signed_value(s@) <= i64::MAX),
        r matches Ok(v) ==> v == signed_value(s@),
        r matches Err(e) ==> e@ == i64_parse_error(s@),
{
    match s.parse::<i64>() {
        Ok(v) => Ok(v),
        Err(e) => Err(e.to_string()),
    }
}

/// The decimal text of `n` reads back as `n`.
pub proof fn decimal_reads_back(n: nat)
    ensures
        all_digits(decimal(n)),
        digits_value(decimal(n)) == n,
    decreases n,
{
    let s = decimal(n);
    if n < 10 {
        assert(s.drop_last() =~= Seq::<char>::empty());
        assert((digit_char(n) as u32) == n + 48);
        assert(s.last() == digit_char(n));
        assert(digits_value(s) == digits_value(s.drop_last()) * 10 + ((s.last() as u32) - 48));
    } else {
        decimal_reads_back(n / 10);
        assert(s.drop_last() =~= decimal(n / 10));
        assert((digit_char(n % 10) as u32) == n % 10 + 48);
        assert(s.last() == digit_char(n % 10));
        assert(n == (n / 10) * 10 + n % 10);
        assert(digits_value(s) == digits_value(decimal(n / 10)) * 10 + ((s.last() as u32) - 48));
        let prefix = decimal(n / 10);
        assert forall|i: int| 0 <= i < s.len() implies is_digit(#[trigger] s[i]) by {
            if i < s.len() - 1 {
                assert(s[i] == prefix[i]);
            }
        }
    }
}

/// The signed decimal text of `n` is accepted by `str::parse` and reads
/// back as `n`.
pub proof fn signed_decimal_reads_back(n: int)
    ensures
        signed_syntax(signed_decimal(n)),
        signed_value(signed_decimal(n)) == n,
{
    let s = signed_decimal(n);
    if n < 0 {
        decimal_reads_back((-n) as nat);
        assert(s.drop_first() =~= decimal((-n) as nat));
    } else {
        decimal_reads_back(n as nat);
        assert(is_digit(s[0]));
        assert(('+' as u32) == 43);
        assert(('-' as u32) == 45);
    }
}

} // verus!
