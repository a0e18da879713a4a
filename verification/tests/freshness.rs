//! The age and the lifetime of responses, tokens, and the reading of header values.

use gawkurl::dates::{date_text, get_date, whole_seconds_between};
use gawkurl::fields::{bytes_eq, can_read_as_text, cut_once, parse_u64, trim};
use gawkurl::freshness::{
    compute_age, compute_forced_wait, first_max_age_of, lifetime_left, parse_directives,
    parse_expires, parse_max_age, parse_retry_after,
};
use gawkurl::hash::{content_hash, encode_digest, same_bytes, token_from_text, token_text};
use gawkurl::headers::get_text;
use gawkurl::text::{find_char, split_once, text_eq, utf8_text, write_number};
use http::{header, HeaderMap, HeaderValue};

const SECOND: i128 = 1_000_000_000;

fn cache_control(values: &[&'static str]) -> HeaderMap {
    let mut headers = HeaderMap::new();
    for value in values {
        headers.append(header::CACHE_CONTROL, HeaderValue::from_static(value));
    }
    headers
}

#[test]
fn max_age_is_read() {
    assert_eq!(parse_max_age(&cache_control(&[])), None);
    assert_eq!(parse_max_age(&cache_control(&["max-age=0"])), Some(0));
    assert_eq!(parse_max_age(&cache_control(&["public, max-age=60"])), Some(60));
    assert_eq!(parse_max_age(&cache_control(&["public,\t max-age = 60 , private"])), Some(60));
    assert_eq!(parse_max_age(&cache_control(&["max-age=+7"])), Some(7));
    assert_eq!(parse_max_age(&cache_control(&["s-maxage=60"])), None);
    assert_eq!(parse_max_age(&cache_control(&["Max-Age=60"])), None);
    assert_eq!(parse_max_age(&cache_control(&["max-age"])), None);
    assert_eq!(parse_max_age(&cache_control(&["max-age=\"60\""])), None);
    assert_eq!(parse_max_age(&cache_control(&["max-age=1=2"])), None);
    assert_eq!(parse_max_age(&cache_control(&["max-age=18446744073709551615"])), Some(u64::MAX));
    assert_eq!(parse_max_age(&cache_control(&["max-age=18446744073709551616"])), None);
}

#[test]
fn first_valid_max_age_counts() {
    assert_eq!(parse_max_age(&cache_control(&["max-age=x, max-age=5, max-age=6"])), Some(5));
    assert_eq!(parse_max_age(&cache_control(&["no-store", "max-age=8", "max-age=9"])), Some(8));
    let mut headers = HeaderMap::new();
    headers.append(header::CACHE_CONTROL, HeaderValue::from_bytes(b"max-age=1\xff").unwrap());
    headers.append(header::CACHE_CONTROL, HeaderValue::from_static("max-age=2"));
    assert_eq!(parse_max_age(&headers), Some(2));
    assert_eq!(parse_directives(b",,max-age=3,"), Some(3));
    assert_eq!(first_max_age_of(&vec![b"".to_vec(), b"max-age=4".to_vec()]), Some(4));
}

#[test]
fn expires_is_relative_to_the_date() {
    let mut headers = HeaderMap::new();
    assert_eq!(parse_expires(&headers, 0), None);
    headers.insert(header::EXPIRES, HeaderValue::from_static("Thu, 01 Jan 1970 00:01:00 GMT"));
    assert_eq!(parse_expires(&headers, 0), Some(60));
    assert_eq!(parse_expires(&headers, SECOND / 2), Some(59));
    assert_eq!(parse_expires(&headers, 60 * SECOND), Some(0));
    assert_eq!(parse_expires(&headers, 60 * SECOND + 1), None);
    headers.insert(header::EXPIRES, HeaderValue::from_static("0"));
    assert_eq!(parse_expires(&headers, 0), None);
}

#[test]
fn age_counts_the_delay_of_the_response() {
    let mut headers = HeaderMap::new();
    assert_eq!(compute_age(&headers, 0, 0), 0);
    assert_eq!(compute_age(&headers, 0, 7 * SECOND + 999), 7);
    // a clock that was set back
    assert_eq!(compute_age(&headers, 7 * SECOND, 0), 0);
    headers.insert(header::AGE, HeaderValue::from_static("5"));
    assert_eq!(compute_age(&headers, 0, 7 * SECOND), 12);
    headers.insert(header::AGE, HeaderValue::from_static("18446744073709551615"));
    assert_eq!(compute_age(&headers, 0, 7 * SECOND), u64::MAX);
    headers.insert(header::AGE, HeaderValue::from_static(" 5"));
    assert_eq!(compute_age(&headers, 0, 7 * SECOND), 7);
    headers.insert(header::AGE, HeaderValue::from_static("-5"));
    assert_eq!(compute_age(&headers, 0, 0), 0);
}

#[test]
fn lifetime_is_reduced_by_the_age() {
    let mut headers = cache_control(&["max-age=100"]);
    headers.insert(header::EXPIRES, HeaderValue::from_static("Thu, 01 Jan 1970 00:01:00 GMT"));
    assert_eq!(lifetime_left(&headers, 0, 30), 70);
    assert_eq!(lifetime_left(&headers, 0, 100), 0);
    assert_eq!(lifetime_left(&headers, 0, 101), 0);
    headers.remove(header::CACHE_CONTROL);
    assert_eq!(lifetime_left(&headers, 0, 30), 30);
    headers.remove(header::EXPIRES);
    assert_eq!(lifetime_left(&headers, 0, 30), 0);
}

#[test]
fn retry_after_is_a_number_or_a_date() {
    let mut headers = HeaderMap::new();
    assert_eq!(parse_retry_after(&headers, 0), None);
    headers.insert(header::RETRY_AFTER, HeaderValue::from_static("120"));
    assert_eq!(parse_retry_after(&headers, 0), Some(120));
    assert_eq!(parse_retry_after(&headers, 77 * SECOND), Some(120));
    assert_eq!(compute_forced_wait(429, &headers, 0), 120);
    assert_eq!(compute_forced_wait(503, &headers, 0), 0);
    headers.insert(
        header::RETRY_AFTER,
        HeaderValue::from_static("Thu, 01 Jan 1970 00:01:00 GMT"),
    );
    assert_eq!(parse_retry_after(&headers, 20 * SECOND), Some(40));
    assert_eq!(parse_retry_after(&headers, 61 * SECOND), None);
    assert_eq!(compute_forced_wait(429, &headers, 61 * SECOND), 0);
    headers.insert(header::RETRY_AFTER, HeaderValue::from_static("never"));
    assert_eq!(parse_retry_after(&headers, 0), None);
}

#[test]
fn dates_are_read_and_written() {
    assert_eq!(date_text(784_111_777), "Sun, 06 Nov 1994 08:49:37 GMT");
    assert_eq!(date_text(253_402_300_799), "Fri, 31 Dec 9999 23:59:59 GMT");
    let mut headers = HeaderMap::new();
    assert_eq!(get_date(&headers, "date"), None);
    headers.insert(header::DATE, HeaderValue::from_static("Sun Nov  6 08:49:37 1994"));
    assert_eq!(get_date(&headers, "date"), Some(784_111_777));
    headers.insert(header::DATE, HeaderValue::from_static("Sun, 06 Nov 1994"));
    assert_eq!(get_date(&headers, "date"), None);
    assert_eq!(whole_seconds_between(-SECOND, SECOND), Some(2));
    assert_eq!(whole_seconds_between(SECOND, -SECOND), None);
}

#[test]
fn header_values_are_text_or_not() {
    let mut headers = HeaderMap::new();
    assert_eq!(get_text(&headers, "etag"), None);
    headers.append(header::ETAG, HeaderValue::from_static("\"a\""));
    headers.append(header::ETAG, HeaderValue::from_static("\"b\""));
    assert_eq!(get_text(&headers, "etag"), Some(b"\"a\"".to_vec()));
    headers.insert(header::ETAG, HeaderValue::from_bytes(b"\"\xe4\"").unwrap());
    assert_eq!(get_text(&headers, "etag"), None);
    assert!(can_read_as_text(b"a\tb ~"));
    assert!(!can_read_as_text(b"\x7f"));
}

#[test]
fn fields_are_cut_and_trimmed() {
    assert_eq!(cut_once(b"a=b=c", b'='), Some((&b"a"[..], &b"b=c"[..])));
    assert_eq!(cut_once(b"abc", b'='), None);
    assert_eq!(trim(b" \t\r\n\x0ca b "), b"a b");
    assert_eq!(trim(b"\x0b"), b"\x0b");
    assert_eq!(trim(b"  "), b"");
    assert!(bytes_eq(b"ab", b"ab"));
    assert!(!bytes_eq(b"ab", b"ac"));
    assert!(!bytes_eq(b"ab", b"abc"));
}

#[test]
fn numbers_are_read_as_the_standard_library_reads_them() {
    for text in [
        "", "+", "-", "0", "00", "+0", "7", "+7", "++7", "-7", "-0", " 7", "7 ", "1_0", "0x10",
        "18446744073709551615", "18446744073709551616", "99999999999999999999",
        "000000000000000000000000001", "12a",
    ] {
        assert_eq!(parse_u64(text.as_bytes()), text.parse::<u64>().ok());
    }
}

#[test]
fn numbers_are_written_as_the_standard_library_writes_them() {
    for n in [0, 1, 9, 10, 15, 16, 255, 256, 3600, u64::MAX as u128, u128::MAX] {
        assert_eq!(write_number(n, 10), n.to_string());
        assert_eq!(write_number(n, 16), format!("{n:x}"));
    }
    for n in [0, 1, 59, 86400, u64::MAX] {
        assert_eq!(parse_u64(write_number(n as u128, 10).as_bytes()), Some(n));
    }
}

#[test]
fn text_is_cut_and_compared() {
    assert_eq!(find_char("äö/ü", '/'), Some(2));
    assert_eq!(find_char("äöü", '/'), None);
    assert_eq!(split_once("äö/ü/", '/'), Some(("äö", "ü/")));
    assert_eq!(split_once("", '/'), None);
    assert!(text_eq("ä", "ä"));
    assert!(!text_eq("a", "A"));
    assert_eq!(utf8_text(b"abc"), "abc");
}

#[test]
fn tokens_of_contents() {
    assert_eq!(&content_hash(b"test"), b"qqI6ndHe");
    assert_eq!(&content_hash(b"test 2"), b"TJ8x3sfE");
    assert_ne!(content_hash(b""), [0; 8]);
    assert_eq!(token_text(&content_hash(b"test")), "qqI6ndHe");
}

#[test]
fn digests_are_written_in_url_safe_base64() {
    assert_eq!(&encode_digest(&[0, 0, 0, 0, 0, 0]), b"AAAAAAAA");
    assert_eq!(&encode_digest(&[0xff, 0xff, 0xff, 0xff, 0xff, 0xff]), b"________");
    assert_eq!(&encode_digest(&[0xfb, 0xef, 0xbe, 0x4d, 0x61, 0x6e]), b"----TWFu");
    assert_ne!(encode_digest(&[0, 0, 0, 0, 0, 1]), encode_digest(&[0, 0, 0, 0, 1, 0]));
}

#[test]
fn tokens_that_clients_send() {
    assert_eq!(&token_from_text(Some("qqI6ndHe")), b"qqI6ndHe");
    assert_eq!(token_from_text(Some("qqI6ndH")), [0; 8]);
    assert_eq!(token_from_text(Some("qqI6ndHe1")), [0; 8]);
    assert_eq!(&token_from_text(Some("ääää")), "ääää".as_bytes());
    assert_eq!(token_from_text(None), [0; 8]);
    assert!(same_bytes(b"qqI6ndHe", b"qqI6ndHe"));
    assert!(!same_bytes(b"qqI6ndHe", b"qqI6ndHf"));
    assert!(!same_bytes(b"qqI6ndHe", b""));
}
