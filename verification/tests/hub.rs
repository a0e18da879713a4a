//! Pages that their hubs announce.

use gawkurl::hub::{
    base_url, challenge_response, hub_step, reply, Answer, HubStep, Opened, Request, Subscriptions,
};
use gawkurl::intent::{read_intent, Intent};
use gawkurl::links::{find_hub, find_page_hub, page_from_fetch, Fetched, Link, LinkParam, Page};
use gawkurl::urls::subscription_request;
use trillium::Headers;

const SECOND: i128 = 1_000_000_000;
const BASE: &str = "http://gawk.example";

fn headers(lines: &[(&'static str, &'static str)]) -> Headers {
    let mut headers = Headers::new();
    for (name, value) in lines {
        headers.append(*name, *value);
    }
    headers
}

fn page_headers() -> Headers {
    headers(&[
        ("content-type", "text/plain"),
        ("link", "<https://origin.example/>; rel=\"self\""),
        ("link", "<https://hub.example/>; rel=\"hub\""),
    ])
}

fn answered(body: &str) -> Fetched {
    Fetched::Answered {
        status: 200,
        status_text: "200 OK".to_owned(),
        headers: page_headers(),
        body: Ok(body.as_bytes().to_vec()),
    }
}

/// The names and values in the query of a URL.
fn pairs(url: &str) -> Vec<(String, String)> {
    let query = url.split_once('?').unwrap().1;
    form_urlencoded::parse(query.as_bytes()).into_owned().collect()
}

fn value(url: &str, name: &str) -> String {
    pairs(url).into_iter().find(|(k, _)| k == name).expect(name).1
}

fn query(pairs: &[(&str, &str)]) -> String {
    form_urlencoded::Serializer::new(String::new()).extend_pairs(pairs).finish()
}

/// A server with one page that a client waits for under the given callback number.
fn subscribed(url: &str, fresh: u128) -> (Subscriptions, Opened) {
    let mut subs = Subscriptions::new();
    let opened = subs.open(url, Some("AAAAAAAA"), BASE, 0, fresh);
    (subs, opened)
}

#[test]
fn basic() {
    let mut subs = Subscriptions::new();
    let url = "https://origin.example";

    // GET /cached/https://origin.example
    let opened = subs.wait_for_hash_change(url, None, BASE, 0);
    assert!(opened.fetch);
    assert!(matches!(opened.request, Request::Idle));
    assert!(subs.reply_for(url, &opened.expected, BASE).is_none());
    subs.fetched(url, answered("hello"));
    let cached = subs.reply_for(url, &opened.expected, BASE).unwrap();
    assert_eq!(cached.status, 200);
    assert_eq!(cached.headers[1], ("content-type".to_owned(), "text/plain".to_owned()));
    assert_eq!(cached.body, b"hello");

    // follow the link to the next version
    assert_eq!(cached.headers[0].0, "next-version");
    let next = cached.headers[0].1.strip_prefix(BASE).unwrap();
    let (hash, same) = next.strip_prefix('/').unwrap().split_once('/').unwrap();
    assert_eq!(same, url);
    let opened = subs.wait_for_hash_change(url, Some(hash), BASE, 0);
    assert!(!opened.fetch);
    let callback = match opened.request {
        Request::Send { callback } => callback,
        _ => panic!("expected a request"),
    };
    assert!(subs.reply_for(url, &opened.expected, BASE).is_none());

    // the hub is asked
    let request = match subs.hub_step_for(url, &callback) {
        HubStep::Post { url } => url,
        _ => panic!("expected a request to the hub"),
    };
    assert!(request.starts_with("https://hub.example/?"));
    assert_eq!(value(&request, "hub.callback"), callback);
    assert_eq!(value(&request, "hub.mode"), "subscribe");
    assert_eq!(value(&request, "hub.topic"), "https://origin.example");

    // it verifies the intent
    let id = callback.strip_prefix("http://gawk.example/notify/").unwrap();
    let challenge = "you-will-never-guess-this-surprising-challenge";
    let verify_intent = query(&[
        ("hub.mode", value(&request, "hub.mode").as_str()),
        ("hub.topic", value(&request, "hub.topic").as_str()),
        ("hub.challenge", challenge),
        ("hub.lease_seconds", "3600"),
    ]);
    match subs.verify_intent(id, &verify_intent, 0) {
        Answer::Respond(response) => {
            assert_eq!(response.status, 200);
            assert_eq!(response.body, challenge.as_bytes());
        }
        _ => panic!("expected a response"),
    }

    // and brings a new version
    let told = subs.notify(id, b"goodbye".to_vec(), &headers(&[("content-type", "text/plain")]));
    assert_eq!(told.status, 200);
    assert!(told.body.is_empty());
    let changed = subs.reply_for(url, &opened.expected, BASE).unwrap();
    assert_eq!(changed.status, 200);
    assert_eq!(changed.headers[1], ("content-type".to_owned(), "text/plain".to_owned()));
    assert_eq!(changed.body, b"goodbye");
}

#[test]
fn callback_is_named_in_hexadecimal() {
    let (subs, opened) = subscribed("http://a/", 0xbeef);
    match opened.request {
        Request::Send { callback } => assert_eq!(callback, "http://gawk.example/notify/beef"),
        _ => panic!("expected a request"),
    }
    assert_eq!(subs.by_id("beef"), Some("http://a/".to_owned()));
    assert_eq!(subs.by_id("BEEF"), None);
}

#[test]
fn names_of_subscriptions_are_distinct() {
    let (mut subs, _) = subscribed("http://a/", 7);
    let opened = subs.open("http://b/", Some("AAAAAAAA"), BASE, 0, 7);
    assert!(opened.fetch);
    assert!(matches!(opened.request, Request::NameTaken));
    assert_eq!(subs.by_id("7"), Some("http://a/".to_owned()));
    let opened = subs.open("http://b/", Some("AAAAAAAA"), BASE, 0, 8);
    assert!(!opened.fetch);
    assert!(matches!(opened.request, Request::Send { .. }));
    assert_eq!(subs.by_id("8"), Some("http://b/".to_owned()));
}

#[test]
fn random_names_differ() {
    let mut subs = Subscriptions::new();
    let first = match subs.wait_for_hash_change("http://a/", Some("AAAAAAAA"), BASE, 0).request {
        Request::Send { callback } => callback,
        _ => panic!("expected a request"),
    };
    let second = match subs.wait_for_hash_change("http://b/", Some("AAAAAAAA"), BASE, 0).request {
        Request::Send { callback } => callback,
        _ => panic!("expected a request"),
    };
    assert_ne!(first, second);
}

#[test]
fn pending_subscription_is_not_requested_again() {
    let (mut subs, _) = subscribed("http://a/", 7);
    let request = subs.ensure_subscription("http://a/", BASE, 1_000_000 * SECOND, 8);
    assert!(matches!(request, Request::Idle));
    assert_eq!(subs.by_id("8"), None);
}

#[test]
fn lease_decides_about_renewal() {
    let (mut subs, _) = subscribed("http://a/", 7);
    let lease = query(&[
        ("hub.mode", "subscribe"),
        ("hub.topic", "http://a/"),
        ("hub.challenge", "c"),
        ("hub.lease_seconds", "60"),
    ]);
    assert!(matches!(subs.verify_intent("7", &lease, 10 * SECOND), Answer::Respond(_)));
    let request = subs.ensure_subscription("http://a/", BASE, 70 * SECOND - 1, 8);
    assert!(matches!(request, Request::Idle));
    match subs.ensure_subscription("http://a/", BASE, 70 * SECOND, 8) {
        Request::Send { callback } => assert_eq!(callback, "http://gawk.example/notify/7"),
        _ => panic!("the lease has ended"),
    }
}

#[test]
fn ended_subscription_is_forgotten() {
    let (mut subs, _) = subscribed("http://a/", 7);
    let end = query(&[
        ("hub.mode", "unsubscribe"),
        ("hub.topic", "http://a/"),
        ("hub.challenge", "farewell"),
    ]);
    match subs.verify_intent("7", &end, 0) {
        Answer::Respond(response) => assert_eq!(response.body, b"farewell"),
        _ => panic!("expected a response"),
    }
    assert_eq!(subs.by_id("7"), None);
    let gone = subs.notify("7", b"late".to_vec(), &Headers::new());
    assert_eq!(gone.status, 410);
    assert!(matches!(subs.verify_intent("7", &end, 0), Answer::Unhandled));
    let request = subs.ensure_subscription("http://a/", BASE, 0, 9);
    assert!(matches!(request, Request::Send { .. }));
    assert_eq!(subs.by_id("9"), Some("http://a/".to_owned()));
}

#[test]
fn intents_that_change_nothing() {
    let (mut subs, _) = subscribed("http://a/", 7);
    let unrelated = [
        query(&[]),
        query(&[("hub.mode", "subscribe")]),
        query(&[("hub.challenge", "c")]),
        query(&[("hub.mode", "sing"), ("hub.challenge", "c")]),
        query(&[
            ("hub.mode", "subscribe"),
            ("hub.topic", "http://b/"),
            ("hub.challenge", "c"),
            ("hub.lease_seconds", "1"),
        ]),
    ];
    for call in &unrelated {
        assert!(matches!(subs.verify_intent("7", call, 0), Answer::Unhandled));
    }
    let denied = query(&[("hub.mode", "denied"), ("hub.challenge", "c")]);
    assert!(matches!(subs.verify_intent("7", &denied, 0), Answer::Denied));
    let bad = query(&[("hub.mode", "subscribe"), ("hub.challenge", "c")]);
    match subs.verify_intent("7", &bad, 0) {
        Answer::Respond(response) => {
            assert_eq!(response.status, 500);
            assert!(response.body.is_empty());
        }
        _ => panic!("expected a response"),
    }
    // still requested and not confirmed
    assert!(matches!(subs.ensure_subscription("http://a/", BASE, SECOND, 8), Request::Idle));
}

#[test]
fn intents_are_read() {
    let list = |pairs: &[(&str, &str)]| -> Vec<(String, String)> {
        pairs.iter().map(|(k, v)| (k.to_string(), v.to_string())).collect()
    };
    let read = |pairs: &[(&str, &str)]| read_intent(&list(pairs), "http://a/");
    assert!(matches!(
        read(&[
            ("hub.mode", "denied"),
            ("hub.mode", "subscribe"),
            ("hub.challenge", "first"),
            ("hub.challenge", "last"),
            ("hub.lease_seconds", "5"),
        ]),
        Intent::Subscribe { challenge, lease_seconds: 5 } if challenge == "last"
    ));
    assert!(matches!(
        read(&[("hub.mode", "unsubscribe"), ("hub.challenge", "c")]),
        Intent::Unsubscribe { challenge } if challenge == "c"
    ));
    assert!(matches!(read(&[("hub.mode", "denied"), ("hub.challenge", "c")]), Intent::Denied));
    assert!(matches!(read(&[("hub.mode", "denied")]), Intent::Unrelated));
    assert!(matches!(
        read(&[("hub.mode", "subscribe"), ("hub.challenge", "c"), ("hub.lease_seconds", "1h")]),
        Intent::BadLease
    ));
    assert!(matches!(
        read(&[
            ("hub.topic", "http://a/"),
            ("hub.topic", "http://b/"),
            ("hub.mode", "denied"),
            ("hub.challenge", "c"),
        ]),
        Intent::Unrelated
    ));
}

#[test]
fn intents_are_applied() {
    let (mut subs, _) = subscribed("http://a/", 7);
    let intent = Intent::Subscribe { challenge: "c".to_owned(), lease_seconds: u64::MAX };
    assert!(matches!(subs.apply_intent("7", intent, 0), Answer::Respond(_)));
    let never = (1i128 << 64) * SECOND;
    assert!(matches!(
        subs.ensure_subscription("http://a/", BASE, never - 2 * SECOND, 8),
        Request::Idle
    ));
}

#[test]
fn challenge_is_echoed_as_plain_bytes() {
    let response = challenge_response("<b>");
    assert_eq!(response.status, 200);
    assert_eq!(
        response.headers,
        vec![
            ("content-type".to_owned(), "application/octet-stream".to_owned()),
            ("x-content-type-options".to_owned(), "nosniff".to_owned()),
        ]
    );
    assert_eq!(response.body, b"<b>");
}

#[test]
fn query_strings_are_decoded() {
    let (mut subs, _) = subscribed("http://a/", 7);
    let call = "hub.mode=subscribe&hub.topic=http%3A%2F%2Fa%2F&hub.challenge=a+b%21&hub.lease_seconds=1";
    match subs.verify_intent("7", call, 0) {
        Answer::Respond(response) => assert_eq!(response.body, b"a b!"),
        _ => panic!("expected a response"),
    }
}

#[test]
fn page_is_fetched_once() {
    let mut subs = Subscriptions::new();
    assert!(subs.by_url("http://a/"));
    assert!(!subs.by_url("http://a/"));
    assert!(subs.by_url("http://b/"));
    subs.fetched("http://a/", answered("hello"));
    assert!(!subs.open("http://a/", None, BASE, 0, 1).fetch);
}

#[test]
fn failures_are_reported() {
    let mut subs = Subscriptions::new();
    let opened = subs.open("http://a/", None, BASE, 0, 1);
    subs.fetched("http://a/", Fetched::Unreachable("no route".to_owned()));
    let response = subs.reply_for("http://a/", &opened.expected, BASE).unwrap();
    assert_eq!(response.status, 502);
    assert_eq!(
        response.body,
        b"something went wrong fetching the page you asked for: no route"
    );
    assert!(matches!(subs.hub_step_for("http://a/", "http://c/"), HubStep::Stop));
}

#[test]
fn fetches_become_pages() {
    let not_found = Fetched::Answered {
        status: 404,
        status_text: "404 Not Found".to_owned(),
        headers: page_headers(),
        body: Ok(Vec::new()),
    };
    assert!(matches!(
        page_from_fetch(not_found),
        Page::Failed(message) if message == "got status 404 Not Found"
    ));
    let cut_off = Fetched::Answered {
        status: 200,
        status_text: "200 OK".to_owned(),
        headers: page_headers(),
        body: Err("closed".to_owned()),
    };
    assert!(matches!(page_from_fetch(cut_off), Page::Failed(message) if message == "closed"));
    match page_from_fetch(answered("test")) {
        Page::Ready { hub, content_type, content, hash } => {
            assert_eq!(hub, "https://hub.example/");
            assert_eq!(content_type, "text/plain");
            assert_eq!(content, b"test");
            assert_eq!(&hash, b"qqI6ndHe");
        }
        _ => panic!("expected a page"),
    }
}

#[test]
fn content_type_must_be_single() {
    let twice = headers(&[("content-type", "text/plain"), ("content-type", "text/html")]);
    assert!(matches!(
        Page::from_http(Vec::new(), &twice),
        Page::Ready { content_type, hub, .. } if content_type.is_empty() && hub.is_empty()
    ));
    assert!(matches!(
        Page::from_http(Vec::new(), &Headers::new()),
        Page::Ready { content_type, hub, .. } if content_type.is_empty() && hub.is_empty()
    ));
}

#[test]
fn hubs_are_found() {
    let find = |values: &[&str]| {
        find_page_hub(&values.iter().map(|value| Some(value.to_string())).collect())
    };
    assert_eq!(find(&[]), "");
    assert_eq!(find(&["<a>; rel=\"hub\""]), "a");
    assert_eq!(find(&["<a>; rel=\"self\", <b>; rel=\"hub\", <c>; rel=\"hub\""]), "b");
    // the last value with a hub counts
    assert_eq!(find(&["<a>; rel=\"hub\"", "<b>; rel=\"hub\""]), "b");
    assert_eq!(find(&["<a>; rel=\"hub\"", "<b>; rel=\"self\""]), "a");
    assert_eq!(find(&["<a>; rel=\"hub\"", "no link"]), "a");
    // only the first relation of a link counts
    assert_eq!(find(&["<a>; rel=\"self\"; rel=\"hub\""]), "");
    assert_eq!(find(&["<a>; title=\"hub\"; rel=\"hub\""]), "a");
    assert_eq!(find_page_hub(&vec![None]), "");
}

#[test]
fn hubs_among_links() {
    let param = |key: &str, val: Option<&str>| LinkParam {
        key: key.to_owned(),
        val: val.map(str::to_owned),
    };
    let link = |url: &str, params: Vec<LinkParam>| Some(Link { url: url.to_owned(), params });
    assert_eq!(find_hub(&vec![]), None);
    assert_eq!(find_hub(&vec![None, link("a", vec![])]), None);
    // a relation without a value is passed over
    let links = vec![link("a", vec![param("rel", None), param("rel", Some("hub"))])];
    assert_eq!(find_hub(&links), Some("a".to_owned()));
    let links = vec![
        link("a", vec![param("rel", Some("HUB"))]),
        None,
        link("b", vec![param("rel", Some("hub"))]),
    ];
    assert_eq!(find_hub(&links), Some("b".to_owned()));
}

#[test]
fn subscription_requests() {
    let url = subscription_request("http://a/b/c", "../hub?x=1&y#f", "http://me/notify/1").unwrap();
    assert!(url.starts_with("http://a/hub?x=1&y&"));
    assert!(url.ends_with("#f"));
    assert_eq!(value(url.strip_suffix("#f").unwrap(), "hub.topic"), "http://a/b/c");
    // no hub: the page itself is asked
    let url = subscription_request("http://a/b", "", "http://me/").unwrap();
    assert_eq!(
        url,
        "http://a/b?hub.callback=http%3A%2F%2Fme%2F&hub.mode=subscribe&hub.topic=http%3A%2F%2Fa%2Fb"
    );
    assert_eq!(subscription_request("no url", "http://hub/", "http://me/"), None);
    assert_eq!(subscription_request("http://a/", "http://", "http://me/"), None);
}

#[test]
fn long_urls() {
    let topic = format!("http://a/{}", "b".repeat(4_194_304));
    let url = subscription_request(&topic, "http://hub/", "http://me/").unwrap();
    assert!(url.starts_with("http://hub/?hub.callback="));
    assert_eq!(value(&url, "hub.topic"), topic);
    // a hub with a long URL, with and without a fragment
    let hub = format!("http://hub/{}", "b".repeat(16_777_216));
    let url = subscription_request("http://a/", &hub, "http://me/").unwrap();
    assert!(url.starts_with(&hub));
    assert_eq!(value(&url, "hub.topic"), "http://a/");
    let url = subscription_request("http://a/", &format!("{hub}#f"), "http://me/").unwrap();
    assert!(url.starts_with(&hub));
    assert!(url.ends_with("&hub.topic=http%3A%2F%2Fa%2F#f"));
}

#[test]
fn parameters_join_the_query() {
    let added = "hub.callback=%C3%A4+b&hub.mode=subscribe&hub.topic=http%3A%2F%2Fa%2F";
    let request = |hub: &str| subscription_request("http://a/", hub, "ä b").unwrap();
    assert_eq!(request("http://hub/"), format!("http://hub/?{added}"));
    assert_eq!(request("http://hub/?"), format!("http://hub/?{added}"));
    assert_eq!(request("http://hub/?x"), format!("http://hub/?x&{added}"));
    assert_eq!(request("http://hub/#y?z"), format!("http://hub/?{added}#y?z"));
    assert_eq!(request("http://hub/?x#y"), format!("http://hub/?x&{added}#y"));
}

#[test]
fn steps_towards_a_hub() {
    assert!(matches!(hub_step(&Page::Pending, "http://a/", "c"), HubStep::Wait));
    assert!(matches!(hub_step(&Page::Failed(String::new()), "http://a/", "c"), HubStep::Stop));
    let page = page_from_fetch(answered("hello"));
    assert!(matches!(hub_step(&page, "http://a/", "c"), HubStep::Post { .. }));
    assert!(matches!(hub_step(&page, "a", "c"), HubStep::NoUrl));
}

#[test]
fn replies() {
    let page = page_from_fetch(answered("test"));
    let response = reply(&page, &[0; 8], "https://me", "http://a/?b").unwrap();
    assert_eq!(
        response.headers,
        vec![
            ("next-version".to_owned(), "https://me/qqI6ndHe/http://a/?b".to_owned()),
            ("content-type".to_owned(), "text/plain".to_owned()),
        ]
    );
    assert!(reply(&page, b"qqI6ndHe", "https://me", "http://a/").is_none());
    assert!(reply(&page, b"TJ8x3sfE", "https://me", "http://a/").is_some());
    assert!(reply(&Page::Pending, &[0; 8], "https://me", "http://a/").is_none());
}

#[test]
fn base_urls() {
    assert_eq!(base_url(true, "me:8443"), "https://me:8443");
    assert_eq!(base_url(false, "me"), "http://me");
}

#[test]
fn token_of_the_wrong_length_names_no_version() {
    let mut subs = Subscriptions::new();
    let opened = subs.open("http://a/", Some("short"), BASE, 0, 1);
    assert_eq!(opened.expected, [0; 8]);
    assert!(matches!(opened.request, Request::Idle));
}
