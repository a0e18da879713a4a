//! Dates in headers, and the clocks that they are compared with.
//!
//! A point in time is a number of nanoseconds: on the wall clock since the start of 1970, on the
//! monotonic clock since some moment that the caller picks once.

use http::HeaderMap;
use vstd::prelude::*;
use vstd::utf8::*;

use crate::fields::is_text;
use crate::headers::{first_value, get_text, header_contents, is_header_key, text_value};

verus! {

/// The nanoseconds in a second.
pub const NANOS: i128 = 1_000_000_000;

/// The first second that an HTTP date cannot express: the start of the year 10000.
pub const DATE_LIMIT: u64 = 253_402_300_800;

/// Whether a clock that counts seconds in 64 signed bits can show the time `t`.
pub open spec fn on_clock(t: int) -> bool {
    -9_223_372_036_854_775_808 * NANOS <= t < 9_223_372_036_854_775_808 * NANOS
}

/// The whole seconds from `earlier` to `later`, if they stand in that order.
pub open spec fn seconds_between(earlier: int, later: int) -> Option<nat> {
    if earlier <= later {
        Some(((later - earlier) / NANOS as int) as nat)
    } else {
        None
    }
}

/// The whole seconds from `earlier` to `later`, if they stand in that order.
pub fn whole_seconds_between(earlier: i128, later: i128) -> (r: Option<u64>)
    requires
        on_clock(earlier as int),
        on_clock(later as int),
    ensures
        match r {
            Some(s) => seconds_between(earlier as int, later as int) == Some(s as nat),
            None => seconds_between(earlier as int, later as int) is None,
        },
{
    if earlier <= later {
        let nanos: u128 = (later - earlier) as u128;
        let seconds: u128 = nanos / 1_000_000_000;
        Some(seconds as u64)
    } else {
        None
    }
}

/// The point in time that an HTTP date denotes, in seconds since the start of 1970.
pub uninterp spec fn http_date_secs(text: Seq<u8>) -> Option<u64>;

/// The HTTP date for a number of seconds since the start of 1970.
pub uninterp spec fn http_date_text(secs: u64) -> Seq<char>;

/// Calls the `FromStr` of `httpdate::HttpDate`. Which texts are dates, and which point in time each
/// denotes, depends on the text alone and is named by [`http_date_secs`]; no date lies behind the
/// year 9999.
#[verifier::external_body]
fn parse_http_date(text: &[u8]) -> (r: Option<u64>)
    ensures
        r == http_date_secs(text@),
        r matches Some(secs) ==> secs < DATE_LIMIT,
{
    let date = std::str::from_utf8(text).ok()?.parse::<httpdate::HttpDate>().ok()?;
    let since_1970 = std::time::SystemTime::from(date).duration_since(std::time::UNIX_EPOCH);
    since_1970.ok().map(|duration| duration.as_secs())
}

/// Calls the `Display` of `httpdate::HttpDate`. The text depends on the point in time alone, is
/// named by [`http_date_text`], and reads back as that point in time.
#[verifier::external_body]
fn format_http_date(secs: u64) -> (r: String)
    requires
        secs < DATE_LIMIT,
    ensures
        r@ == http_date_text(secs),
        http_date_secs(encode_utf8(r@)) == Some(secs),
{
    let time = std::time::UNIX_EPOCH + std::time::Duration::from_secs(secs);
    httpdate::HttpDate::from(time).to_string()
}

/// The HTTP date for a number of seconds since the start of 1970.
pub fn date_text(secs: u64) -> (r: String)
    requires
        secs < DATE_LIMIT,
    ensures
        r@ == http_date_text(secs),
        http_date_secs(encode_utf8(r@)) == Some(secs),
{
    format_http_date(secs)
}

/// The date under a header name: none if there is no value, or one that is no date.
pub open spec fn date_value(
    contents: Map<Seq<char>, Seq<Seq<u8>>>,
    name: Seq<char>,
) -> Option<u64> {
    match text_value(contents, name) {
        Some(value) => http_date_secs(value),
        None => None,
    }
}

/// Reads the date under a header name.
pub fn get_date(headers: &HeaderMap, name: &str) -> (r: Option<u64>)
    requires
        is_header_key(name@),
    ensures
        r == date_value(header_contents(*headers), name@),
        r matches Some(secs) ==> secs < DATE_LIMIT,
{
    match get_text(headers, name) {
        Some(value) => parse_http_date(value.as_slice()),
        None => None,
    }
}

/// The whole seconds between two moments: that many fit between them, and not one more. There are
/// none if the moments stand in the wrong order.
pub proof fn law_whole_seconds(earlier: int, later: int)
    ensures
        match seconds_between(earlier, later) {
            Some(s) => earlier <= later && s * 1_000_000_000 <= later - earlier < (s + 1)
                * 1_000_000_000,
            None => later < earlier,
        },
{
}

/// A date is read from the first value under its name, if that is text.
pub proof fn law_date_is_the_first(contents: Map<Seq<char>, Seq<Seq<u8>>>, name: Seq<char>)
    ensures
        match first_value(contents, name) {
            Some(value) => date_value(contents, name) == (if is_text(value) {
                http_date_secs(value)
            } else {
                None
            }),
            None => date_value(contents, name) is None,
        },
{
}

} // verus!
