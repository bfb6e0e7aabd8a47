//! How the server reads the values of its `REMERGE_*` environment
//! overrides: unsigned numbers as `str::parse` reads them (an optional `+`,
//! then decimal digits, within the type's range; anything else leaves the
//! configured value), and the JSON-logging switch.
use vstd::prelude::*;

use crate::text::{chars_of, eq_ignore_ascii_case, eq_ignore_case, parse_digits_u64, parse_u64_digits};

verus! {

/// What `str::parse` gives for an unsigned integer of at most `max`: an
/// optional leading `+`, then one or more decimal digits whose value is at
/// most `max`.
pub open spec fn parse_unsigned(s: Seq<char>, max: nat) -> Option<nat> {
    let digits = if s.len() > 0 && s[0] == '+' {
        s.drop_first()
    } else {
        s
    };
    match parse_digits_u64(digits) {
        Some(v) => if v <= max {
            Some(v as nat)
        } else {
            None
        },
        None => None,
    }
}

fn parse_unsigned_at_most(v: &str, max: u64) -> (r: Option<u64>)
    ensures
        r matches Some(n) ==> parse_unsigned(v@, max as nat) == Some(n as nat),
        r is None ==> parse_unsigned(v@, max as nat) is None,
{
    let cs = chars_of(v);
    let parsed = if cs.len() > 0 && cs[0] == '+' {
        let rest = crate::text::sub_chars(cs.as_slice(), 1, cs.len());
        assert(rest@ =~= cs@.drop_first());
        parse_u64_digits(rest.as_slice())
    } else {
        parse_u64_digits(cs.as_slice())
    };
    match parsed {
        Some(n) => if n <= max {
            Some(n)
        } else {
            None
        },
        None => None,
    }
}

/// Reads an override for a `u64` setting.
pub fn parse_env_u64(v: &str) -> (r: Option<u64>)
    ensures
        r matches Some(n) ==> parse_unsigned(v@, u64::MAX as nat) == Some(n as nat),
        r is None ==> parse_unsigned(v@, u64::MAX as nat) is None,
{
    parse_unsigned_at_most(v, u64::MAX)
}

/// Reads an override for a `u32` setting.
pub fn parse_env_u32(v: &str) -> (r: Option<u32>)
    ensures
        r matches Some(n) ==> parse_unsigned(v@, u32::MAX as nat) == Some(n as nat),
        r is None ==> parse_unsigned(v@, u32::MAX as nat) is None,
{
    match parse_unsigned_at_most(v, u32::MAX as u64) {
        Some(n) => Some(n as u32),
        None => None,
    }
}

/// Reads an override for a `usize` setting.
pub fn parse_env_usize(v: &str) -> (r: Option<usize>)
    ensures
        r matches Some(n) ==> parse_unsigned(v@, usize::MAX as nat) == Some(n as nat),
        r is None ==> parse_unsigned(v@, usize::MAX as nat) is None,
{
    match parse_unsigned_at_most(v, usize::MAX as u64) {
        Some(n) => Some(n as usize),
        None => None,
    }
}

/// `REMERGE_LOG_JSON` switches JSON logging on when it is `1` or `true` in
/// any case, and off otherwise.
pub fn log_json_flag(v: &str) -> (r: bool)
    ensures
        r == (v@ == "1"@ || eq_ignore_case(v@, "true"@)),
{
    let cs = chars_of(v);
    let one = chars_of("1");
    let t = chars_of("true");
    crate::text::eq_chars(cs.as_slice(), one.as_slice()) || eq_ignore_ascii_case(
        cs.as_slice(),
        t.as_slice(),
    )
}

} // verus!
