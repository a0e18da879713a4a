//! The servers that let their clients wait for a page to change.

use gawkurl::hash::content_hash;
use gawkurl::pages::{failure, page_response, Pages, Step, Wait};
use gawkurl::poll;
use gawkurl::uris::{is_web_page, route, split_target, UriParts};
use gawkurl::watch::{Page, Reply};
use http::{header, HeaderMap, HeaderValue};

const SECOND: i128 = 1_000_000_000;

fn version(contents: &str, last_changed: i128) -> Page {
    Page {
        hash: content_hash(contents.as_bytes()),
        contents: contents.as_bytes().to_vec(),
        last_changed,
    }
}

fn line(name: &str, value: &str) -> (String, String) {
    (name.to_owned(), value.to_owned())
}

#[test]
fn routes() {
    assert_eq!(
        route(Some("/cached/http://example.com/a?b=c")),
        Some(("cached", "http://example.com/a?b=c"))
    );
    assert_eq!(
        route(Some("/qqI6ndHe/https://example.com")),
        Some(("qqI6ndHe", "https://example.com"))
    );
    assert_eq!(route(Some("//https://example.com")), Some(("", "https://example.com")));
    assert_eq!(route(Some("/cached/HTTPS://example.com")), Some(("cached", "HTTPS://example.com")));
    assert_eq!(route(None), None);
    assert_eq!(route(Some("")), None);
    assert_eq!(route(Some("*")), None);
    assert_eq!(route(Some("/")), None);
    assert_eq!(route(Some("/cached")), None);
    assert_eq!(route(Some("/cached/")), None);
    assert_eq!(route(Some("/cached/example.com")), None);
    assert_eq!(route(Some("/cached//example.com")), None);
    assert_eq!(route(Some("/cached/ftp://example.com/")), None);
    assert_eq!(route(Some("/cached/http://exa mple.com/")), None);
}

#[test]
fn targets_are_cut_apart() {
    assert_eq!(split_target("/a/b/c"), Some(("a", "b/c")));
    assert_eq!(split_target("/a"), None);
    assert_eq!(split_target("a/b"), None);
}

#[test]
fn web_pages_have_all_parts() {
    let parts = |scheme: Option<&str>, authority: Option<&str>, path: Option<&str>| {
        Some(UriParts {
            scheme: scheme.map(str::to_owned),
            authority: authority.map(str::to_owned),
            path_and_query: path.map(str::to_owned),
        })
    };
    assert!(is_web_page(&parts(Some("http"), Some("a"), Some("/"))));
    assert!(is_web_page(&parts(Some("https"), Some("a"), Some("/"))));
    assert!(!is_web_page(&parts(Some("ws"), Some("a"), Some("/"))));
    assert!(!is_web_page(&parts(None, Some("a"), Some("/"))));
    assert!(!is_web_page(&parts(Some("http"), None, Some("/"))));
    assert!(!is_web_page(&parts(Some("http"), Some("a"), None)));
    assert!(!is_web_page(&None));
}

#[test]
fn unknown_targets_are_not_found() {
    let mut pages = Pages::new();
    match pages.service(Some("/favicon.ico"), 0) {
        Step::Reply(response) => {
            assert_eq!(response.status, 404);
            assert!(response.headers.is_empty());
            assert_eq!(response.body, b"not found");
        }
        Step::Wait { .. } => panic!("expected a reply"),
    }
}

#[test]
fn one_watcher_serves_all_clients() {
    let mut pages = Pages::new();
    let target = Some("/cached/http://example.com/");
    match pages.service(target, 0) {
        Step::Wait { uri, start } => {
            assert_eq!(uri, "http://example.com/");
            assert!(start);
        }
        Step::Reply(_) => panic!("there is no version yet"),
    }
    assert!(matches!(pages.service(target, 0), Step::Wait { start: false, .. }));
    assert!(!pages.lookup("http://example.com/"));
    assert!(pages.lookup("http://example.com/other"));
    pages.changed("http://example.com/", version("test", 0));
    assert!(!pages.lookup("http://example.com/"));
}

#[test]
fn next_version_waits_for_a_change() {
    let mut pages = Pages::new();
    pages.lookup("http://example.com/");
    pages.changed("http://example.com/", version("test", 2 * SECOND));

    let next = match pages.service(Some("/cached/http://example.com/"), 5 * SECOND + 1) {
        Step::Reply(response) => {
            assert_eq!(response.status, 200);
            assert_eq!(response.body, b"test");
            assert_eq!(
                response.headers,
                vec![
                    line("next-version", "/qqI6ndHe/http://example.com/"),
                    line("last-changed", "3"),
                ]
            );
            response.headers[0].1.clone()
        }
        Step::Wait { .. } => panic!("there is a version"),
    };

    match pages.service(Some(&next), 6 * SECOND) {
        Step::Wait { uri, start } => {
            assert_eq!(uri, "http://example.com/");
            assert!(!start);
        }
        Step::Reply(_) => panic!("the client has that version"),
    }

    pages.changed("http://example.com/", version("test 2", 7 * SECOND));
    match pages.service(Some(&next), 7 * SECOND) {
        Step::Reply(response) => {
            assert_eq!(response.body, b"test 2");
            assert_eq!(response.headers[0].1, "/TJ8x3sfE/http://example.com/");
            assert_eq!(response.headers[1].1, "0");
        }
        Step::Wait { .. } => panic!("there is a new version"),
    }
}

#[test]
fn versions_for_clients() {
    let mut pages = Pages::new();
    assert!(matches!(pages.wait_for_change("http://a/", ""), Wait::Pending { start: true }));
    assert!(matches!(pages.wait_for_change("http://a/", ""), Wait::Pending { start: false }));
    pages.changed("http://a/", version("test", 0));
    assert!(matches!(pages.wait_for_change("http://a/", ""), Wait::Ready(_)));
    assert!(matches!(pages.wait_for_change("http://a/", "other"), Wait::Ready(_)));
    assert!(matches!(
        pages.wait_for_change("http://a/", "qqI6ndHe"),
        Wait::Pending { start: false }
    ));
    assert!(matches!(
        pages.wait_for_change("http://b/", "qqI6ndHe"),
        Wait::Pending { start: true }
    ));
}

#[test]
fn responses() {
    let response = page_response(version("test", 10 * SECOND), "http://a/?q", 9 * SECOND);
    assert_eq!(
        response.headers,
        vec![line("next-version", "/qqI6ndHe/http://a/?q"), line("last-changed", "0")]
    );
    let response = failure("channel closed");
    assert_eq!(response.status, 500);
    assert_eq!(response.body, b"channel closed");
    assert!(response.headers.is_empty());
}

fn answer(contents: &str) -> Option<Reply> {
    reply(200, contents, None)
}

/// An answer at the start of 2010.
fn reply(status: u16, contents: &str, retry_after: Option<&'static str>) -> Option<Reply> {
    let mut headers = HeaderMap::new();
    if let Some(value) = retry_after {
        headers.insert(header::RETRY_AFTER, HeaderValue::from_static(value));
    }
    Some(Reply {
        status,
        headers,
        contents: contents.as_bytes().to_vec(),
        response_time: 1_262_304_000 * SECOND,
    })
}

#[test]
fn failed_poll_is_repeated() {
    let mut pages = poll::Pages::new();
    pages.wait_for_change("http://a/", "");

    // before the first version
    let polled = pages.watch("http://a/", None);
    assert!(!polled.modified);
    assert_eq!(polled.delay, 3600);
    assert!(matches!(
        pages.wait_for_change("http://a/", ""),
        poll::Wait::Pending { start: false }
    ));

    // behind it
    assert!(pages.watch("http://a/", answer("test")).modified);
    let polled = pages.watch("http://a/", None);
    assert!(!polled.modified);
    assert_eq!(polled.delay, 3600);
    match pages.wait_for_change("http://a/", "") {
        poll::Wait::Ready(contents) => assert_eq!(contents, b"test"),
        poll::Wait::Pending { .. } => panic!("the version is still there"),
    }
    assert!(matches!(
        pages.wait_for_change("http://a/", "qqI6ndHe"),
        poll::Wait::Pending { start: false }
    ));
    assert!(pages.watch("http://a/", answer("test 2")).modified);
}

#[test]
fn one_poll_serves_all_clients() {
    let mut pages = poll::Pages::new();
    let target = Some("/cached/http://a/");
    assert!(matches!(pages.service(target), poll::Step::Wait { start: true, .. }));
    assert!(matches!(pages.service(target), poll::Step::Wait { start: false, .. }));
    pages.watch("http://a/", None);
    assert!(matches!(pages.service(target), poll::Step::Wait { start: false, .. }));
    pages.watch("http://a/", answer("test"));
    assert!(matches!(
        pages.service(Some("/qqI6ndHe/http://a/")),
        poll::Step::Wait { start: false, .. }
    ));
    assert!(matches!(
        pages.service(Some("/cached/http://b/")),
        poll::Step::Wait { start: true, .. }
    ));
}

#[test]
fn poll_respects_retry_after() {
    let mut pages = poll::Pages::new();
    pages.wait_for_change("http://a/", "");
    let mut delay = |status: u16, value: Option<&'static str>| {
        pages.watch("http://a/", reply(status, "slow down", value)).delay
    };
    assert_eq!(delay(429, Some("7200")), 7200);
    assert_eq!(delay(429, Some("3601")), 3601);
    assert_eq!(delay(429, Some("60")), 3600);
    assert_eq!(delay(429, None), 3600);
    assert_eq!(delay(429, Some("soon")), 3600);
    assert_eq!(delay(429, Some("Fri, 01 Jan 2010 03:00:00 GMT")), 10800);
    assert_eq!(delay(429, Some("Fri, 01 Jan 2010 00:00:01 GMT")), 3600);
    assert_eq!(delay(429, Some("Thu, 31 Dec 2009 00:00:00 GMT")), 3600);
    assert_eq!(delay(200, Some("7200")), 3600);
    assert_eq!(delay(503, Some("7200")), 3600);
}

#[test]
fn polled_pages() {
    let mut pages = poll::Pages::new();
    match pages.service(Some("/nothing")) {
        poll::Step::Reply(response) => {
            assert_eq!(response.status, 404);
            assert_eq!(response.body, b"not found");
        }
        poll::Step::Wait { .. } => panic!("expected a reply"),
    }
    match pages.service(Some("/cached/http://a/")) {
        poll::Step::Wait { uri, start } => {
            assert_eq!(uri, "http://a/");
            assert!(start);
        }
        poll::Step::Reply(_) => panic!("there is no version yet"),
    }
    assert!(matches!(
        pages.service(Some("/cached/http://a/")),
        poll::Step::Wait { start: false, .. }
    ));

    assert!(pages.watch("http://a/", answer("test")).modified);
    assert!(!pages.watch("http://a/", answer("test")).modified);
    match pages.service(Some("/cached/http://a/")) {
        poll::Step::Reply(response) => {
            assert_eq!(response.status, 200);
            assert!(response.headers.is_empty());
            assert_eq!(response.body, b"test");
        }
        poll::Step::Wait { .. } => panic!("there is a version"),
    }
    assert!(matches!(
        pages.service(Some("/qqI6ndHe/http://a/")),
        poll::Step::Wait { start: false, .. }
    ));

    assert!(pages.watch("http://a/", answer("test 2")).modified);
    match pages.wait_for_change("http://a/", "qqI6ndHe") {
        poll::Wait::Ready(contents) => assert_eq!(contents, b"test 2"),
        poll::Wait::Pending { .. } => panic!("there is a new version"),
    }
    assert_eq!(poll::POLL_DELAY, 3600);
}

#[test]
fn empty_page_is_a_version() {
    let mut pages = poll::Pages::new();
    pages.wait_for_change("http://a/", "");
    assert!(pages.watch("http://a/", answer("")).modified);
    assert!(matches!(
        pages.wait_for_change("http://a/", ""),
        poll::Wait::Ready(contents) if contents.is_empty()
    ));
    let blank = poll::Page::default();
    assert_eq!(blank.hash, [0; 8]);
    assert!(blank.contents.is_empty());
}
