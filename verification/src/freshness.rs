//! How long a response stays fresh: its age, and the lifetime that its origin gave it; and how long a
//! server that was asked too often wants to be left alone.

use http::HeaderMap;
use vstd::prelude::*;
use vstd::utf8::*;

use crate::dates::{
    date_value, get_date, http_date_secs, on_clock, seconds_between, whole_seconds_between, NANOS,
};
use crate::fields::{
    bytes_eq, can_read_as_text, cut_once, cut_once_spec, is_digit, is_text, is_visible,
    law_number_is_read_back, lemma_decimal_bytes, parse_u64, parse_u64_spec, split_spec, trim,
    trim_end_spec, trim_spec, trim_start_spec,
};
use crate::headers::{all_values, first_value, get_all, get_text, header_contents, text_value};
use crate::text::number_text;

verus! {

/// `max-age`, as bytes.
pub open spec fn max_age_key() -> Seq<u8> {
    seq![109u8, 97, 120, 45, 97, 103, 101]
}

/// The lifetime that one directive gives: `max-age=N`, with white space allowed around both sides.
pub open spec fn directive_max_age(directive: Seq<u8>) -> Option<u64> {
    match cut_once_spec(directive, 61) {
        Some((key, value)) => if trim_spec(key) == max_age_key() {
            parse_u64_spec(trim_spec(value))
        } else {
            None
        },
        None => None,
    }
}

/// The first lifetime that a list of directives gives.
pub open spec fn first_max_age(directives: Seq<Seq<u8>>) -> Option<u64>
    decreases directives.len(),
{
    if directives.len() == 0 {
        None
    } else {
        match directive_max_age(directives[0]) {
            Some(n) => Some(n),
            None => first_max_age(directives.skip(1)),
        }
    }
}

/// The first lifetime that a list of `cache-control` values gives. A value that is no text is
/// passed over, and so is a directive that is not a valid `max-age`.
pub open spec fn max_age_in(values: Seq<Seq<u8>>) -> Option<u64>
    decreases values.len(),
{
    if values.len() == 0 {
        None
    } else {
        let here = if is_text(values[0]) {
            first_max_age(split_spec(values[0], 44))
        } else {
            None
        };
        match here {
            Some(n) => Some(n),
            None => max_age_in(values.skip(1)),
        }
    }
}

fn parse_directive(directive: &[u8]) -> (r: Option<u64>)
    ensures
        r == directive_max_age(directive@),
{
    match cut_once(directive, 61) {
        Some((key, value)) => {
            let wanted: [u8; 7] = [109, 97, 120, 45, 97, 103, 101];
            assert(wanted@ =~= max_age_key());
            if bytes_eq(trim(key), wanted.as_slice()) {
                parse_u64(trim(value))
            } else {
                None
            }
        },
        None => None,
    }
}

/// The first lifetime that one `cache-control` value gives.
pub fn parse_directives(value: &[u8]) -> (r: Option<u64>)
    ensures
        r == first_max_age(split_spec(value@, 44)),
{
    let mut rest: &[u8] = value;
    loop
        invariant
            first_max_age(split_spec(value@, 44)) == first_max_age(split_spec(rest@, 44)),
        decreases rest@.len(),
    {
        let ghost parts = split_spec(rest@, 44);
        match cut_once(rest, 44) {
            Some((directive, after)) => {
                assert(parts[0] == directive@);
                assert(parts.skip(1) =~= split_spec(after@, 44));
                match parse_directive(directive) {
                    Some(n) => {
                        return Some(n);
                    },
                    None => {
                        rest = after;
                    },
                }
            },
            None => {
                assert(parts[0] == rest@);
                assert(parts.skip(1) =~= Seq::<Seq<u8>>::empty());
                assert(first_max_age(parts.skip(1)) is None);
                return parse_directive(rest);
            },
        }
    }
}

/// The first lifetime that a list of `cache-control` values gives.
pub fn first_max_age_of(values: &Vec<Vec<u8>>) -> (r: Option<u64>)
    ensures
        r == max_age_in(values.deep_view()),
{
    let mut i: usize = 0;
    let ghost all = values.deep_view();
    assert(all.skip(0) =~= all);
    while i < values.len()
        invariant
            i <= values@.len(),
            all == values.deep_view(),
            max_age_in(all) == max_age_in(all.skip(i as int)),
        decreases values@.len() - i,
    {
        let ghost left = all.skip(i as int);
        assert(left[0] == values@[i as int]@);
        assert(left.skip(1) =~= all.skip(i + 1));
        if can_read_as_text(values[i].as_slice()) {
            match parse_directives(values[i].as_slice()) {
                Some(n) => {
                    return Some(n);
                },
                None => {},
            }
        }
        i = i + 1;
    }
    assert(all.skip(i as int) =~= Seq::<Seq<u8>>::empty());
    None
}

/// The lifetime in seconds that the `cache-control` headers give.
pub fn parse_max_age(headers: &HeaderMap) -> (r: Option<u64>)
    ensures
        r == max_age_in(all_values(header_contents(*headers), "cache-control"@)),
{
    proof {
        reveal_strlit("cache-control");
    }
    first_max_age_of(&get_all(headers, "cache-control"))
}

/// The seconds from `date` to the date in the `expires` header: none if that header holds no date,
/// or one that is past.
pub open spec fn expires_in(contents: Map<Seq<char>, Seq<Seq<u8>>>, date: int) -> Option<nat> {
    match date_value(contents, "expires"@) {
        Some(secs) => seconds_between(date, secs * NANOS),
        None => None,
    }
}

/// Parses the contents of an `expires` header into a lifetime in seconds relative to the given
/// date. Returns none if parsing fails or the date is in the past: either way the response has
/// already expired, as it has without that header.
pub fn parse_expires(headers: &HeaderMap, date: i128) -> (r: Option<u64>)
    requires
        on_clock(date as int),
    ensures
        match r {
            Some(n) => expires_in(header_contents(*headers), date as int) == Some(n as nat),
            None => expires_in(header_contents(*headers), date as int) is None,
        },
{
    proof {
        reveal_strlit("expires");
    }
    match get_date(headers, "expires") {
        Some(secs) => {
            let expires: i128 = secs as i128 * 1_000_000_000;
            whole_seconds_between(date, expires)
        },
        None => None,
    }
}

/// The number under the header name `age`, or zero.
pub open spec fn age_value(contents: Map<Seq<char>, Seq<Seq<u8>>>) -> u64 {
    match text_value(contents, "age"@) {
        Some(value) => match parse_u64_spec(value) {
            Some(n) => n,
            None => 0,
        },
        None => 0,
    }
}

/// The age of a response: what its `age` header says, and the time that the request took on top of
/// it, up to the largest number of seconds that 64 bits hold.
pub open spec fn age_of(
    contents: Map<Seq<char>, Seq<Seq<u8>>>,
    request_time: int,
    response_time: int,
) -> nat {
    let delay = match seconds_between(request_time, response_time) {
        Some(s) => s,
        None => 0,
    };
    let sum = age_value(contents) as nat + delay;
    if sum <= u64::MAX {
        sum
    } else {
        u64::MAX as nat
    }
}

/// Computes an estimate of the number of seconds since the response was generated or validated by
/// the origin server.
pub fn compute_age(headers: &HeaderMap, request_time: i128, response_time: i128) -> (r: u64)
    requires
        on_clock(request_time as int),
        on_clock(response_time as int),
    ensures
        r == age_of(header_contents(*headers), request_time as int, response_time as int),
{
    proof {
        reveal_strlit("age");
    }
    let age: u64 = match get_text(headers, "age") {
        Some(value) => match parse_u64(value.as_slice()) {
            Some(n) => n,
            None => 0,
        },
        None => 0,
    };
    let delay: u64 = match whole_seconds_between(request_time, response_time) {
        Some(s) => s,
        None => 0,
    };
    age.saturating_add(delay)
}

/// The lifetime that a response still has: what its `max-age`, or else its `expires`, gives it, less
/// its age.
pub open spec fn remaining_lifetime(
    contents: Map<Seq<char>, Seq<Seq<u8>>>,
    date: int,
    age: nat,
) -> nat {
    let lifetime = match max_age_in(all_values(contents, "cache-control"@)) {
        Some(n) => Some(n as nat),
        None => expires_in(contents, date),
    };
    match lifetime {
        Some(n) => if n >= age {
            (n - age) as nat
        } else {
            0
        },
        None => 0,
    }
}

/// Computes the lifetime that a response still has. `max-age` is preferred over `expires`; a
/// response with neither can be revalidated immediately.
pub fn lifetime_left(headers: &HeaderMap, date: i128, age: u64) -> (r: u64)
    requires
        on_clock(date as int),
    ensures
        r == remaining_lifetime(header_contents(*headers), date as int, age as nat),
{
    let lifetime: Option<u64> = match parse_max_age(headers) {
        Some(n) => Some(n),
        None => parse_expires(headers, date),
    };
    match lifetime {
        Some(n) => n.saturating_sub(age),
        None => 0,
    }
}

/// How many seconds after the moment `from` a server wants to be asked again: the number in its
/// `retry-after` header, or the time up to the date there. None if that header holds neither, or a
/// date that is past.
pub open spec fn retry_after(contents: Map<Seq<char>, Seq<Seq<u8>>>, from: int) -> Option<nat> {
    match text_value(contents, "retry-after"@) {
        Some(value) => match parse_u64_spec(value) {
            Some(n) => Some(n as nat),
            None => match date_value(contents, "retry-after"@) {
                Some(secs) => seconds_between(from, secs * NANOS),
                None => None,
            },
        },
        None => None,
    }
}

/// Reads how many seconds after the moment `from` a server wants to be asked again.
pub fn parse_retry_after(headers: &HeaderMap, from: i128) -> (r: Option<u64>)
    requires
        on_clock(from as int),
    ensures
        match r {
            Some(n) => retry_after(header_contents(*headers), from as int) == Some(n as nat),
            None => retry_after(header_contents(*headers), from as int) is None,
        },
{
    proof {
        reveal_strlit("retry-after");
    }
    let value = match get_text(headers, "retry-after") {
        Some(value) => value,
        None => {
            return None;
        },
    };
    match parse_u64(value.as_slice()) {
        Some(n) => Some(n),
        None => match get_date(headers, "retry-after") {
            Some(secs) => whole_seconds_between(from, secs as i128 * 1_000_000_000),
            None => None,
        },
    }
}

/// The status of an answer to a client that has sent too many requests.
pub const TOO_MANY_REQUESTS: u16 = 429;

/// How many seconds a client that has sent too many requests is to stay away: none unless the
/// status says that it has.
pub open spec fn forced_wait(
    status: u16,
    contents: Map<Seq<char>, Seq<Seq<u8>>>,
    from: int,
) -> nat {
    if status == TOO_MANY_REQUESTS {
        match retry_after(contents, from) {
            Some(n) => n,
            None => 0,
        }
    } else {
        0
    }
}

/// Computes how many seconds a client that has sent too many requests is to stay away.
pub fn compute_forced_wait(status: u16, headers: &HeaderMap, from: i128) -> (r: u64)
    requires
        on_clock(from as int),
    ensures
        r == forced_wait(status, header_contents(*headers), from as int),
{
    if status == TOO_MANY_REQUESTS {
        match parse_retry_after(headers, from) {
            Some(n) => n,
            None => 0,
        }
    } else {
        0
    }
}

/// The number of seconds that a server writes into its `retry-after` header is the one that is read,
/// whenever it is read.
pub proof fn law_retry_after_is_read(contents: Map<Seq<char>, Seq<Seq<u8>>>, n: u64, from: int)
    requires
        first_value(contents, "retry-after"@) == Some(encode_utf8(number_text(n as nat, 10))),
    ensures
        retry_after(contents, from) == Some(n as nat),
        forced_wait(TOO_MANY_REQUESTS, contents, from) == n,
{
    let digits = encode_utf8(number_text(n as nat, 10));
    lemma_decimal_bytes(n as nat);
    law_number_is_read_back(n);
    assert forall|i: int| 0 <= i < digits.len() implies is_visible(#[trigger] digits[i]) by {
        assert(is_digit(digits[i]));
    }
}

/// `max-age=N`, as bytes.
pub open spec fn max_age_directive(n: u64) -> Seq<u8> {
    max_age_key() + seq![61u8] + encode_utf8(number_text(n as nat, 10))
}

/// The lifetime that a server writes is the one that is read, whatever values follow it.
pub proof fn law_max_age_is_read(n: u64, others: Seq<Seq<u8>>)
    ensures
        max_age_in(seq![max_age_directive(n)] + others) == Some(n),
{
    let key = max_age_key();
    let digits = encode_utf8(number_text(n as nat, 10));
    let value = max_age_directive(n);
    let values = seq![value] + others;
    lemma_decimal_bytes(n as nat);
    law_number_is_read_back(n);
    assert(is_digit(digits[0]));
    assert(is_digit(digits.last()));
    assert forall|i: int| 0 <= i < value.len() implies is_visible(#[trigger] value[i]) && value[i]
        != 44 by {
        if i >= 8 {
            assert(value[i] == digits[i - 8]);
            assert(is_digit(digits[i - 8]));
        } else if i < 7 {
            assert(value[i] == key[i]);
        }
    }
    value.index_of_first_ensures(44);
    assert(split_spec(value, 44) == seq![value]);
    assert(value[7] == 61);
    assert(value.contains(61));
    value.index_of_first_ensures(61);
    let at = value.index_of_first(61)->0;
    assert(at == 7) by {
        if at < 7 {
            assert(value[at] == key[at]);
        }
    }
    assert(value.take(7) =~= key);
    assert(value.skip(8) =~= digits);
    assert(trim_start_spec(key) == key);
    assert(trim_end_spec(key) == key);
    assert(trim_start_spec(digits) == digits);
    assert(trim_end_spec(digits) == digits);
    assert(directive_max_age(value) == Some(n));
    assert(values[0] == value);
    assert(first_max_age(split_spec(value, 44)) == Some(n));
}

/// What stands on both sides of the first equals sign of a directive decides: a name that is
/// `max-age` but for white space gives the number behind it, and any other name gives nothing.
pub proof fn law_directive_names_max_age(key: Seq<u8>, value: Seq<u8>)
    requires
        !key.contains(61),
    ensures
        directive_max_age(key) is None,
        directive_max_age(key + seq![61u8] + value) == (if trim_spec(key) == seq![
            'm' as u8,
            'a' as u8,
            'x' as u8,
            '-' as u8,
            'a' as u8,
            'g' as u8,
            'e' as u8,
        ] {
            parse_u64_spec(trim_spec(value))
        } else {
            None
        }),
{
    key.index_of_first_ensures(61);
    let whole = key + seq![61u8] + value;
    let at: int = key.len() as int;
    whole.index_of_first_ensures(61);
    assert(whole[at] == 61);
    assert(whole.contains(61));
    let i = whole.index_of_first(61)->0;
    if i < at {
        assert(key[i] == whole[i]);
    }
    assert(whole.take(at) =~= key);
    assert(whole.skip(at + 1) =~= value);
    assert(max_age_key() =~= seq![
        'm' as u8,
        'a' as u8,
        'x' as u8,
        '-' as u8,
        'a' as u8,
        'g' as u8,
        'e' as u8,
    ]);
}

/// Of several directives the first that gives a lifetime decides, wherever it stands and whatever
/// follows it.
pub proof fn law_first_directive_decides(directives: Seq<Seq<u8>>, i: int)
    requires
        0 <= i < directives.len(),
        directive_max_age(directives[i]) is Some,
        forall|j: int| 0 <= j < i ==> directive_max_age(#[trigger] directives[j]) is None,
    ensures
        first_max_age(directives) == directive_max_age(directives[i]),
    decreases i,
{
    if i > 0 {
        let rest = directives.skip(1);
        assert(directive_max_age(directives[0]) is None);
        assert forall|j: int| 0 <= j < i - 1 implies directive_max_age(#[trigger] rest[j]) is None by {
            assert(rest[j] == directives[j + 1]);
        }
        assert(rest[i - 1] == directives[i]);
        law_first_directive_decides(rest, i - 1);
    }
}

/// Directives of which none gives a lifetime give none together.
pub proof fn law_no_directive_no_lifetime(directives: Seq<Seq<u8>>)
    requires
        forall|j: int|
            0 <= j < directives.len() ==> directive_max_age(#[trigger] directives[j]) is None,
    ensures
        first_max_age(directives) is None,
    decreases directives.len(),
{
    if directives.len() > 0 {
        let rest = directives.skip(1);
        assert(directive_max_age(directives[0]) is None);
        assert forall|j: int| 0 <= j < rest.len() implies directive_max_age(
            #[trigger] rest[j],
        ) is None by {
            assert(rest[j] == directives[j + 1]);
        }
        law_no_directive_no_lifetime(rest);
    }
}

/// Whether a `cache-control` value gives no lifetime: it is no text, or none of its directives, which
/// commas separate, gives one.
pub open spec fn gives_no_lifetime(value: Seq<u8>) -> bool {
    is_text(value) ==> forall|j: int|
        0 <= j < split_spec(value, 44).len() ==> directive_max_age(
            #[trigger] split_spec(value, 44)[j],
        ) is None
}

/// Of several `cache-control` values the first that gives a lifetime decides, and in it the first
/// directive that gives one, wherever both stand and whatever follows them.
pub proof fn law_first_lifetime_decides(values: Seq<Seq<u8>>, i: int, j: int)
    requires
        0 <= i < values.len(),
        is_text(values[i]),
        0 <= j < split_spec(values[i], 44).len(),
        directive_max_age(split_spec(values[i], 44)[j]) is Some,
        forall|k: int|
            0 <= k < j ==> directive_max_age(#[trigger] split_spec(values[i], 44)[k]) is None,
        forall|k: int| 0 <= k < i ==> gives_no_lifetime(#[trigger] values[k]),
    ensures
        max_age_in(values) == directive_max_age(split_spec(values[i], 44)[j]),
    decreases i,
{
    if i > 0 {
        let rest = values.skip(1);
        assert(gives_no_lifetime(values[0]));
        if is_text(values[0]) {
            law_no_directive_no_lifetime(split_spec(values[0], 44));
        }
        assert forall|k: int| 0 <= k < i - 1 implies gives_no_lifetime(#[trigger] rest[k]) by {
            assert(rest[k] == values[k + 1]);
        }
        assert(rest[i - 1] == values[i]);
        law_first_lifetime_decides(rest, i - 1, j);
    } else {
        law_first_directive_decides(split_spec(values[0], 44), j);
    }
}

/// `cache-control` values of which none gives a lifetime give none together.
pub proof fn law_no_value_no_lifetime(values: Seq<Seq<u8>>)
    requires
        forall|k: int| 0 <= k < values.len() ==> gives_no_lifetime(#[trigger] values[k]),
    ensures
        max_age_in(values) is None,
    decreases values.len(),
{
    if values.len() > 0 {
        let rest = values.skip(1);
        assert(gives_no_lifetime(values[0]));
        if is_text(values[0]) {
            law_no_directive_no_lifetime(split_spec(values[0], 44));
        }
        assert forall|k: int| 0 <= k < rest.len() implies gives_no_lifetime(#[trigger] rest[k]) by {
            assert(rest[k] == values[k + 1]);
        }
        law_no_value_no_lifetime(rest);
    }
}

/// The lifetime up to the date in an `expires` header is counted in whole seconds from `date`: that
/// many fit in between, and not one more. There is none if the date is past or there is no date.
pub proof fn law_expires_counts_from_date(contents: Map<Seq<char>, Seq<Seq<u8>>>, date: int)
    ensures
        match date_value(contents, "expires"@) {
            Some(expires) => match expires_in(contents, date) {
                Some(n) => date + n * 1_000_000_000 <= expires * 1_000_000_000 && expires
                    * 1_000_000_000 < date + (n + 1) * 1_000_000_000,
                None => expires * 1_000_000_000 < date,
            },
            None => expires_in(contents, date) is None,
        },
{
}

/// The age of a response is the number in its `age` header, or zero, and the whole seconds that the
/// request took on top of it; what 64 bits do not hold is cut off.
pub proof fn law_age_adds_up(
    contents: Map<Seq<char>, Seq<Seq<u8>>>,
    request_time: int,
    response_time: int,
)
    ensures
        ({
            let header: int = match text_value(contents, "age"@) {
                Some(value) => match parse_u64_spec(value) {
                    Some(n) => n as int,
                    None => 0,
                },
                None => 0,
            };
            let took: int = if request_time <= response_time {
                (response_time - request_time) / 1_000_000_000
            } else {
                0
            };
            let age = age_of(contents, request_time, response_time);
            &&& header + took <= 0xffff_ffff_ffff_ffff ==> age == header + took
            &&& header + took > 0xffff_ffff_ffff_ffff ==> age == 0xffff_ffff_ffff_ffff
        }),
{
}

/// The lifetime that is left, and the age, are the lifetime that was given: by `max-age`, or else by
/// `expires`. Nothing is left if the age is larger, or if nothing was given.
pub proof fn law_lifetime_is_what_age_leaves(
    contents: Map<Seq<char>, Seq<Seq<u8>>>,
    date: int,
    age: nat,
)
    ensures
        ({
            let left = remaining_lifetime(contents, date, age);
            match max_age_in(all_values(contents, "cache-control"@)) {
                Some(n) => (age <= n ==> left + age == n) && (age > n ==> left == 0),
                None => match expires_in(contents, date) {
                    Some(n) => (age <= n ==> left + age == n) && (age > n ==> left == 0),
                    None => left == 0,
                },
            }
        }),
{
}

/// A `retry-after` header that is no number is read as a date, and counted in whole seconds from
/// `from`: that many fit in between, and not one more. There is nothing to wait for if the date is
/// past, or if there is neither a number nor a date.
pub proof fn law_retry_after_is_number_or_date(
    contents: Map<Seq<char>, Seq<Seq<u8>>>,
    from: int,
)
    ensures
        match text_value(contents, "retry-after"@) {
            Some(value) => match parse_u64_spec(value) {
                Some(n) => retry_after(contents, from) == Some(n as nat),
                None => match http_date_secs(value) {
                    Some(secs) => match retry_after(contents, from) {
                        Some(n) => from + n * 1_000_000_000 <= secs * 1_000_000_000 && secs
                            * 1_000_000_000 < from + (n + 1) * 1_000_000_000,
                        None => secs * 1_000_000_000 < from,
                    },
                    None => retry_after(contents, from) is None,
                },
            },
            None => retry_after(contents, from) is None,
        },
{
}

/// A client is kept away only by an answer that it has sent too many requests, for as long as the
/// `retry-after` header of that answer says.
pub proof fn law_only_too_many_requests_keep_away(
    status: u16,
    contents: Map<Seq<char>, Seq<Seq<u8>>>,
    from: int,
)
    ensures
        status != 429 || retry_after(contents, from) is None ==> forced_wait(status, contents, from)
            == 0,
        status == 429 ==> (retry_after(contents, from) matches Some(n) ==> forced_wait(
            status,
            contents,
            from,
        ) == n),
{
}

} // verus!
