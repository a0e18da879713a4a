//! How a page is watched, on a clock that the tests move.

use std::time::{Duration, SystemTime};

use bytes::Bytes;
use gawkurl::watch::{condition_headers, Page, Reply, Watcher};
use http::{header, Response, StatusCode};
use httpdate::HttpDate;

const SECOND: i128 = 1_000_000_000;

struct Request {
    etag: Option<header::HeaderValue>,
    last_modified: Option<HttpDate>,
}

/// The wall clock starts in 2010 and the monotonic clock at zero; both run at the same pace.
struct Clock {
    elapsed: i128,
}

impl Clock {
    fn now(&self) -> i128 {
        40 * (365 * 4 + 1) / 4 * 86400 * SECOND + self.elapsed
    }

    fn sleep(&mut self, duration: Duration) {
        self.elapsed += duration.as_nanos() as i128;
    }
}

/// A watcher, its clock, and the change that it reported last.
struct CallStream {
    clock: Clock,
    watcher: Watcher,
    wait: u64,
    page: Option<Page>,
}

impl CallStream {
    fn new() -> CallStream {
        let clock = Clock { elapsed: 0 };
        let watcher = Watcher::new(clock.elapsed);
        CallStream { clock, watcher, wait: 0, page: None }
    }

    fn fetch(&mut self, f: impl FnOnce(Request, &mut Clock) -> Response<Bytes>) {
        assert!(self.page.is_none(), "expected fetch()");
        self.clock.sleep(Duration::from_secs(self.wait));

        let conditions = self.watcher.conditions();
        let request = Request {
            etag: conditions.etag.map(|value| header::HeaderValue::from_bytes(&value).unwrap()),
            last_modified: conditions
                .last_modified
                .map(|secs| (SystemTime::UNIX_EPOCH + Duration::from_secs(secs)).into()),
        };
        let request_time = self.clock.now();
        let (parts, body) = f(request, &mut self.clock).into_parts();
        let reply = Reply {
            status: parts.status.as_u16(),
            headers: parts.headers,
            contents: body.to_vec(),
            response_time: self.clock.now(),
        };
        let seen = self.watcher.observe(request_time, Some(reply), self.clock.elapsed);
        self.page = seen.page;
        self.wait = self.watcher.delay(seen.max_age, self.clock.elapsed);
    }

    fn fail(&mut self) {
        self.clock.sleep(Duration::from_secs(self.wait));
        let seen = self.watcher.observe(self.clock.now(), None, self.clock.elapsed);
        assert!(seen.page.is_none());
        self.wait = self.watcher.delay(seen.max_age, self.clock.elapsed);
    }

    fn changed(&mut self) -> Page {
        self.page.take().expect("expected changed()")
    }

    /// For how many whole seconds a page has been what it is.
    fn elapsed(&self, page: &Page) -> i128 {
        (self.clock.elapsed - page.last_changed) / SECOND
    }
}

#[test]
fn unchanged() {
    let mut call = CallStream::new();
    let contents = Bytes::from_static(b"test");

    call.fetch(|request, _| {
        assert_eq!(request.etag, None);
        assert_eq!(request.last_modified, None);
        Response::new(contents.clone())
    });

    let page = call.changed();
    assert_eq!(page.contents, contents);
    assert_eq!(std::str::from_utf8(&page.hash).unwrap(), "qqI6ndHe");

    call.fetch(|request, _| {
        assert_eq!(request.etag, None);
        assert_eq!(request.last_modified, None);
        Response::new(contents.clone())
    });

    call.fetch(|request, _| {
        assert_eq!(request.etag, None);
        assert_eq!(request.last_modified, None);
        Response::new(contents.clone())
    });
    assert!(call.page.is_none());
}

#[test]
fn changed() {
    let mut call = CallStream::new();
    let contents = Bytes::from_static(b"test");

    call.fetch(|request, _| {
        assert_eq!(request.etag, None);
        assert_eq!(request.last_modified, None);
        Response::new(contents.clone())
    });

    let page = call.changed();
    assert_eq!(page.contents, contents);
    assert_eq!(std::str::from_utf8(&page.hash).unwrap(), "qqI6ndHe");

    let contents = Bytes::from_static(b"test 2");

    call.fetch(|request, _| {
        assert_eq!(request.etag, None);
        assert_eq!(request.last_modified, None);
        Response::new(contents.clone())
    });

    let page = call.changed();
    assert_eq!(page.contents, contents);
    assert_eq!(std::str::from_utf8(&page.hash).unwrap(), "TJ8x3sfE");
}

#[test]
fn unchanged_304() {
    let mut call = CallStream::new();
    let contents = Bytes::from_static(b"test");
    let etag = header::HeaderValue::from_static("\"etag\"");

    call.fetch(|request, _| {
        assert_eq!(request.etag, None);
        assert_eq!(request.last_modified, None);
        let mut response = Response::new(contents.clone());
        response.headers_mut().insert(header::ETAG, etag.clone());
        response
    });

    let page = call.changed();
    assert_eq!(page.contents, contents);
    assert_eq!(std::str::from_utf8(&page.hash).unwrap(), "qqI6ndHe");

    call.fetch(|request, _| {
        assert_eq!(request.etag.as_ref(), Some(&etag));
        assert_eq!(request.last_modified, None);
        let mut response = Response::new(Bytes::new());
        *response.status_mut() = StatusCode::NOT_MODIFIED;
        response.headers_mut().insert(header::ETAG, etag.clone());
        response
    });

    call.fetch(|request, _| {
        assert_eq!(request.etag.as_ref(), Some(&etag));
        assert_eq!(request.last_modified, None);
        Response::new(contents.clone())
    });
    assert!(call.page.is_none());
}

#[test]
fn last_modified() {
    let mut call = CallStream::new();
    let mut last_modified: Option<HttpDate> = None;

    // The first request will consider last-modified to be plausible even if it's long ago.
    call.fetch(|request, _| {
        assert_eq!(request.last_modified, last_modified);
        let date = header::HeaderValue::from_static("Fri, 01 Jan 2010 00:00:00 GMT");
        let modified = header::HeaderValue::from_static("Sun, 06 Nov 1994 08:49:37 GMT");
        last_modified = Some(modified.to_str().unwrap().parse().unwrap());

        let mut response = Response::new(Bytes::from_static(b"1"));
        let headers = response.headers_mut();
        headers.insert(header::DATE, date);
        headers.insert(header::LAST_MODIFIED, modified);
        response
    });

    let page = call.changed();
    assert_eq!(call.elapsed(&page), 478192223);

    // Subsequent requests require last-modified to be more recent than the last time we fetched
    // this page, taking clock skew and the age header into account.
    call.fetch(|request, _| {
        assert_eq!(request.last_modified, last_modified);
        let date = header::HeaderValue::from_static("Fri, 01 Jan 2010 00:10:00 GMT");
        let modified = header::HeaderValue::from_static("Fri, 01 Jan 2010 00:05:00 GMT");
        last_modified = Some(modified.to_str().unwrap().parse().unwrap());

        let mut response = Response::new(Bytes::from_static(b"2"));
        let headers = response.headers_mut();
        headers.insert(header::DATE, date);
        headers.insert(header::LAST_MODIFIED, modified);
        headers.insert(header::AGE, header::HeaderValue::from_static("5"));
        response
    });

    let page = call.changed();
    assert_eq!(call.elapsed(&page), 305);

    // If last-modified is implausible, we approximate the last change time as being right now, the
    // moment we observed the change.
    call.fetch(|request, _| {
        assert_eq!(request.last_modified, last_modified);
        let date = header::HeaderValue::from_static("Fri, 01 Jan 2010 00:20:00 GMT");
        let modified = header::HeaderValue::from_static("Fri, 01 Jan 2010 00:00:00 GMT");
        last_modified = Some(modified.to_str().unwrap().parse().unwrap());

        let mut response = Response::new(Bytes::from_static(b"3"));
        let headers = response.headers_mut();
        headers.insert(header::DATE, date);
        headers.insert(header::LAST_MODIFIED, modified);
        response
    });

    let page = call.changed();
    assert_eq!(call.elapsed(&page), 0);

    // If the server takes some time to produce the response, we count that time as part of the age
    // of the response.
    call.fetch(|request, clock| {
        assert_eq!(request.last_modified, last_modified);
        let date = header::HeaderValue::from_static("Fri, 01 Jan 2010 00:30:00 GMT");
        let modified = header::HeaderValue::from_static("Fri, 01 Jan 2010 00:25:00 GMT");
        last_modified = Some(modified.to_str().unwrap().parse().unwrap());

        let mut response = Response::new(Bytes::from_static(b"4"));
        let headers = response.headers_mut();
        headers.insert(header::DATE, date);
        headers.insert(header::LAST_MODIFIED, modified);
        clock.sleep(Duration::from_secs(7));
        response
    });

    let page = call.changed();
    assert_eq!(call.elapsed(&page), 307);
}

#[test]
fn last_modified_unix_epoch() {
    let mut call = CallStream::new();
    // A pre-web last-modified should always be implausible.
    call.fetch(|_request, _| {
        let mut response = Response::new(Bytes::new());
        response.headers_mut().insert(
            header::LAST_MODIFIED,
            header::HeaderValue::from_static("Thu, 01 Jan 1970 00:00:00 GMT"),
        );
        response
    });

    let page = call.changed();
    assert_eq!(call.elapsed(&page), 0);
}

#[test]
fn last_modified_dos_epoch() {
    let mut call = CallStream::new();
    // A pre-web last-modified should always be implausible.
    call.fetch(|_request, _| {
        let mut response = Response::new(Bytes::new());
        response.headers_mut().insert(
            header::LAST_MODIFIED,
            header::HeaderValue::from_static("Tue, 01 Jan 1980 00:00:00 GMT"),
        );
        response
    });

    let page = call.changed();
    assert_eq!(call.elapsed(&page), 0);
}

#[test]
fn ignore_server_errors() {
    let mut call = CallStream::new();
    // 5xx response status codes should not trigger change notifications.
    call.fetch(|_request, _| {
        let mut response = Response::new(Bytes::new());
        *response.status_mut() = StatusCode::INTERNAL_SERVER_ERROR;
        response
    });

    call.fetch(|_request, _| Response::new(Bytes::new()));

    assert_eq!(call.changed().contents, Bytes::new());

    call.fetch(|_request, _| {
        let mut response = Response::new(Bytes::new());
        *response.status_mut() = StatusCode::SERVICE_UNAVAILABLE;
        response
    });

    call.fetch(|_request, _| Response::new(Bytes::new()));
    assert!(call.page.is_none());
}

#[test]
fn respect_max_age() {
    let mut call = CallStream::new();
    call.fetch(|_request, _| {
        let mut response = Response::new(Bytes::new());
        response.headers_mut().insert(
            header::CACHE_CONTROL,
            header::HeaderValue::from_static("max-age=86400"),
        );
        response
    });
    let last_fetch = call.clock.elapsed;
    call.changed();

    call.fetch(|_request, clock| {
        assert_eq!((clock.elapsed - last_fetch) / SECOND, 86400);
        Response::new(Bytes::new())
    });
}

#[test]
fn respect_expires() {
    let mut call = CallStream::new();
    call.fetch(|_request, _| {
        let mut response = Response::new(Bytes::new());
        response.headers_mut().insert(
            header::DATE,
            header::HeaderValue::from_static("Fri, 01 Jan 2010 00:00:00 GMT"),
        );
        response.headers_mut().insert(
            header::EXPIRES,
            header::HeaderValue::from_static("Sun, 03 Jan 2010 00:00:00 GMT"),
        );
        response
    });
    let last_fetch = call.clock.elapsed;
    call.changed();

    call.fetch(|_request, clock| {
        assert_eq!((clock.elapsed - last_fetch) / SECOND, 2 * 86400);
        Response::new(Bytes::new())
    });
}

#[test]
fn prefer_max_age() {
    let mut call = CallStream::new();
    call.fetch(|_request, _| {
        let mut response = Response::new(Bytes::new());
        response.headers_mut().insert(
            header::DATE,
            header::HeaderValue::from_static("Fri, 01 Jan 2010 00:00:00 GMT"),
        );
        response.headers_mut().insert(
            header::EXPIRES,
            header::HeaderValue::from_static("Wed, 01 Jan 2025 00:00:00 GMT"),
        );
        response.headers_mut().insert(
            header::CACHE_CONTROL,
            header::HeaderValue::from_static("max-age=123456"),
        );
        response
    });
    let last_fetch = call.clock.elapsed;
    call.changed();

    call.fetch(|_request, clock| {
        assert_eq!((clock.elapsed - last_fetch) / SECOND, 123456);
        Response::new(Bytes::new())
    });
}

#[test]
fn failures_keep_what_is_known() {
    let mut call = CallStream::new();
    call.fail();
    call.fetch(|request, _| {
        assert_eq!(request.etag, None);
        let mut response = Response::new(Bytes::from_static(b"test"));
        response.headers_mut().insert(header::ETAG, header::HeaderValue::from_static("\"a\""));
        response
    });
    call.changed();
    call.fail();
    call.fail();
    call.fetch(|request, _| {
        assert_eq!(request.etag, Some(header::HeaderValue::from_static("\"a\"")));
        Response::new(Bytes::from_static(b"test"))
    });
    assert!(call.page.is_none());
    // the last answer had no validator
    call.fetch(|request, _| {
        assert_eq!(request.etag, None);
        Response::new(Bytes::from_static(b"test"))
    });
}

#[test]
fn failure_is_no_fetch() {
    let mut call = CallStream::new();
    call.fetch(|_, _| Response::new(Bytes::from_static(b"1")));
    call.changed();
    // a change half way between the first fetch and this failure can have been missed
    call.fail();
    call.fetch(|_, _| {
        let mut response = Response::new(Bytes::from_static(b"2"));
        let headers = response.headers_mut();
        headers.insert(
            header::DATE,
            header::HeaderValue::from_static("Fri, 01 Jan 2010 00:20:00 GMT"),
        );
        headers.insert(
            header::LAST_MODIFIED,
            header::HeaderValue::from_static("Fri, 01 Jan 2010 00:05:00 GMT"),
        );
        response
    });
    let page = call.changed();
    assert_eq!(call.elapsed(&page), 900);
}

#[test]
fn error_counts_as_fetch() {
    let mut call = CallStream::new();
    call.fetch(|_, _| Response::new(Bytes::from_static(b"1")));
    call.changed();
    call.fetch(|_, _| {
        let mut response = Response::new(Bytes::new());
        *response.status_mut() = StatusCode::SERVICE_UNAVAILABLE;
        response
    });
    call.fetch(|_, _| {
        let mut response = Response::new(Bytes::from_static(b"2"));
        let headers = response.headers_mut();
        headers.insert(
            header::DATE,
            header::HeaderValue::from_static("Fri, 01 Jan 2010 00:20:00 GMT"),
        );
        headers.insert(
            header::LAST_MODIFIED,
            header::HeaderValue::from_static("Fri, 01 Jan 2010 00:05:00 GMT"),
        );
        response
    });
    let page = call.changed();
    assert_eq!(call.elapsed(&page), 0);
}

#[test]
fn date_in_the_future_is_ignored() {
    let mut call = CallStream::new();
    call.fetch(|_, _| {
        let mut response = Response::new(Bytes::from_static(b"1"));
        let headers = response.headers_mut();
        headers.insert(
            header::DATE,
            header::HeaderValue::from_static("Fri, 01 Jan 2010 00:00:00 GMT"),
        );
        headers.insert(
            header::LAST_MODIFIED,
            header::HeaderValue::from_static("Fri, 01 Jan 2010 00:00:01 GMT"),
        );
        response
    });
    let page = call.changed();
    assert_eq!(call.elapsed(&page), 0);
}

#[test]
fn validators_go_out_as_headers() {
    let mut call = CallStream::new();
    assert!(condition_headers(&call.watcher.conditions()).is_empty());
    call.fetch(|_, _| {
        let mut response = Response::new(Bytes::from_static(b"1"));
        let headers = response.headers_mut();
        headers.insert(header::ETAG, header::HeaderValue::from_static("W/\"x\""));
        headers.insert(
            header::LAST_MODIFIED,
            header::HeaderValue::from_static("Sunday, 06-Nov-94 08:49:37 GMT"),
        );
        response
    });
    let lines = condition_headers(&call.watcher.conditions());
    assert_eq!(lines.len(), 2);
    assert_eq!(lines[0].name, "if-none-match");
    assert_eq!(lines[0].value, b"W/\"x\"");
    assert_eq!(lines[1].name, "if-modified-since");
    assert_eq!(lines[1].value, b"Sun, 06 Nov 1994 08:49:37 GMT");
}

#[test]
fn invalid_last_modified_is_no_validator() {
    let mut call = CallStream::new();
    call.fetch(|_, _| {
        let mut response = Response::new(Bytes::from_static(b"1"));
        response.headers_mut().insert(
            header::LAST_MODIFIED,
            header::HeaderValue::from_static("yesterday"),
        );
        response
    });
    call.changed();
    call.fetch(|request, _| {
        assert_eq!(request.last_modified, None);
        Response::new(Bytes::from_static(b"1"))
    });
}

#[test]
fn delay_stays_within_bounds() {
    let watcher = Watcher::new(0);
    assert_eq!(watcher.delay(0, 0), 600);
    assert_eq!(watcher.delay(599, 0), 600);
    assert_eq!(watcher.delay(601, 0), 601);
    assert_eq!(watcher.delay(604_800, 0), 604_800);
    assert_eq!(watcher.delay(604_801, 0), 604_800);
    assert_eq!(watcher.delay(u64::MAX, 0), 604_800);
    // a tenth of the time since the last change
    assert_eq!(watcher.delay(0, 6_009 * SECOND), 600);
    assert_eq!(watcher.delay(0, 12_349 * SECOND), 1_234);
    assert_eq!(watcher.delay(1_235, 12_349 * SECOND), 1_235);
    assert_eq!(watcher.delay(0, 60_480_000 * SECOND), 604_800);
    // the last change lies ahead
    assert_eq!(watcher.delay(0, -SECOND), 600);
}

#[test]
fn delay_grows_while_nothing_changes() {
    let mut call = CallStream::new();
    let mut last = 0;
    let mut i = 0;
    while i < 60 {
        call.fetch(|_, _| Response::new(Bytes::from_static(b"same")));
        call.page = None;
        assert!(call.wait >= last);
        last = call.wait;
        i += 1;
    }
    assert!(last > 600);
}

fn too_many_requests(retry_after: &'static str) -> Response<Bytes> {
    let mut response = Response::new(Bytes::from_static(b"slow down"));
    *response.status_mut() = StatusCode::TOO_MANY_REQUESTS;
    response
        .headers_mut()
        .insert(header::RETRY_AFTER, header::HeaderValue::from_static(retry_after));
    response
}

#[test]
fn respect_retry_after() {
    let mut call = CallStream::new();
    call.fetch(|_, _| too_many_requests("7200"));
    assert!(call.page.is_none());
    assert_eq!(call.wait, 7200);
    // neither sooner than ten minutes nor later than a week
    call.fetch(|_, _| too_many_requests("5"));
    assert_eq!(call.wait, 720);
    call.fetch(|_, _| too_many_requests("604801"));
    assert_eq!(call.wait, 604_800);
}

#[test]
fn retry_after_can_be_a_date() {
    let mut call = CallStream::new();
    // our clock says that it is the start of 2010, that of the server is an hour ahead
    call.fetch(|_, _| {
        let mut response = too_many_requests("Fri, 01 Jan 2010 03:00:00 GMT");
        response.headers_mut().insert(
            header::DATE,
            header::HeaderValue::from_static("Fri, 01 Jan 2010 01:00:00 GMT"),
        );
        response
    });
    assert_eq!(call.wait, 7200);

    let mut call = CallStream::new();
    call.fetch(|_, _| too_many_requests("Fri, 01 Jan 2010 03:00:00 GMT"));
    assert_eq!(call.wait, 10800);
}

#[test]
fn retry_after_counts_only_with_its_status() {
    let mut call = CallStream::new();
    call.fetch(|_, _| {
        let mut response = too_many_requests("7200");
        *response.status_mut() = StatusCode::SERVICE_UNAVAILABLE;
        response
    });
    assert_eq!(call.wait, 600);
    // a longer lifetime is respected too
    let mut call = CallStream::new();
    call.fetch(|_, _| {
        let mut response = too_many_requests("7200");
        response.headers_mut().insert(
            header::CACHE_CONTROL,
            header::HeaderValue::from_static("max-age=9000"),
        );
        response
    });
    assert_eq!(call.wait, 9000);
}

#[test]
fn copy_of_a_page() {
    let mut call = CallStream::new();
    call.fetch(|_, _| Response::new(Bytes::from_static(b"test")));
    let page = call.changed();
    let copy = page.copy();
    assert_eq!(copy.hash, page.hash);
    assert_eq!(copy.contents, page.contents);
    assert_eq!(copy.last_changed, page.last_changed);
}
