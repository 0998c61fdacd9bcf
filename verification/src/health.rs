//! The health checks that read no file and call no service: the heartbeat's
//! text and its freshness, and where the API's health endpoint is.
use vstd::prelude::*;
use vstd::string::*;

use crate::numbers::{
    decimal, decimal_chars, int_error_message, lemma_decimal_digits, lemma_parse_decimal,
    lemma_read_decimal,
    parse_unsigned, parse_unsigned_spec, IntErrorKind,
};
use crate::text::{chars_of, is_white_space, lemma_trim_unchanged, string_from_chars, trim, trim_chars};

verus! {

/// Why the heartbeat check fails.
#[derive(Debug, PartialEq, Eq)]
pub enum HealthError {
    /// The heartbeat file does not hold a Unix timestamp.
    NotATimestamp(IntErrorKind),
    /// The last heartbeat is older than allowed.
    Stale { age: u64, max_age: u64 },
}

/// The text a user is shown for each error.
pub open spec fn health_error_message(e: HealthError) -> Seq<char> {
    match e {
        HealthError::NotATimestamp(k) => "heartbeat file does not contain a Unix timestamp: "@
            + int_error_message(k),
        HealthError::Stale { age, max_age } => "heartbeat is stale ("@ + decimal(age as nat)
            + "s old, max "@ + decimal(max_age as nat) + "s)"@,
    }
}

impl HealthError {
    /// The text a user is shown for this error.
    pub fn message(&self) -> (m: String)
        ensures
            m@ == health_error_message(*self),
    {
        match self {
            HealthError::NotATimestamp(k) => {
                let mut m = String::from_str("heartbeat file does not contain a Unix timestamp: ");
                m.append(k.message());
                m
            },
            HealthError::Stale { age, max_age } => {
                let mut m = String::from_str("heartbeat is stale (");
                let a = string_from_chars(&decimal_chars(*age));
                m.append(a.as_str());
                m.append("s old, max ");
                let x = string_from_chars(&decimal_chars(*max_age));
                m.append(x.as_str());
                m.append("s)");
                m
            },
        }
    }
}

/// What the service writes into its heartbeat file at Unix time `now`.
pub fn heartbeat_contents(now: u64) -> (contents: String)
    ensures
        contents@ == decimal(now as nat),
{
    string_from_chars(&decimal_chars(now))
}

/// Seconds from `then` to `now`, or 0 when `then` is later (`u64::saturating_sub`).
pub open spec fn age_between(now: u64, then: u64) -> u64 {
    if now >= then {
        (now - then) as u64
    } else {
        0
    }
}

/// What the heartbeat check concludes from the heartbeat file's text at Unix
/// time `now`: the trimmed text must be a timestamp, and the heartbeat must
/// be at most `max_age` seconds old.
pub open spec fn heartbeat_verdict(contents: Seq<char>, now: u64, max_age: u64) -> Result<(), HealthError> {
    match parse_unsigned_spec(trim(contents), u64::MAX as nat) {
        Err(k) => Err(HealthError::NotATimestamp(k)),
        Ok(t) => {
            let age = age_between(now, t as u64);
            if age > max_age {
                Err(HealthError::Stale { age, max_age })
            } else {
                Ok(())
            }
        },
    }
}

/// Checks the heartbeat file's text at Unix time `now` against the largest
/// age allowed.
pub fn check_heartbeat(contents: &str, now: u64, max_age: u64) -> (r: Result<(), HealthError>)
    ensures
        r == heartbeat_verdict(contents@, now, max_age),
{
    let t = trim_chars(&chars_of(contents));
    match parse_unsigned(&t, 0xffff_ffff_ffff_ffff) {
        Err(k) => Err(HealthError::NotATimestamp(k)),
        Ok(timestamp) => {
            let age = now.saturating_sub(timestamp);
            if age > max_age {
                Err(HealthError::Stale { age, max_age })
            } else {
                Ok(())
            }
        },
    }
}

/// The API's health endpoint under its base URL.
pub fn health_url(api_base_url: &str) -> (url: String)
    ensures
        url@ == api_base_url@ + "/health"@,
{
    let mut url = String::from_str(api_base_url);
    url.append("/health");
    url
}

/// A heartbeat written at time `then` passes the check at time `now` exactly
/// when it is at most `max_age` seconds old (a heartbeat from the future has age 0).
pub proof fn lemma_heartbeat_round_trip(then: u64, now: u64, max_age: u64)
    ensures
        (heartbeat_verdict(decimal(then as nat), now, max_age) is Ok) == (age_between(now, then)
            <= max_age),
{
    let s = decimal(then as nat);
    lemma_decimal_digits(then as nat);
    lemma_parse_decimal(then as nat, u64::MAX as nat);
    lemma_read_decimal(then as nat, u64::MAX as nat);
    assert(!is_white_space(s[0]));
    assert(!is_white_space(s.last()));
    lemma_trim_unchanged(s);
}

} // verus!
