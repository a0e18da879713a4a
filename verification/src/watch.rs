//! Watching one page: what to ask its server, what to make of the answer, and when to ask again.
//!
//! A [`Watcher`] holds what is remembered between two fetches. The caller performs the fetches: it
//! sends the request that [`Watcher::conditions`] describes, hands the answer to
//! [`Watcher::observe`], tells the page's readers of a change, and sleeps for as long as
//! [`Watcher::delay`] says.

use http::HeaderMap;
use vstd::prelude::*;
use vstd::slice::*;
use vstd::string::*;
use vstd::utf8::*;

use crate::dates::{
    date_text, date_value, get_date, http_date_secs, http_date_text, on_clock, seconds_between,
    DATE_LIMIT, NANOS,
};
use crate::freshness::{
    age_of, compute_age, compute_forced_wait, forced_wait, lifetime_left, max_age_in,
    remaining_lifetime, retry_after, TOO_MANY_REQUESTS,
};
use crate::hash::{
    blank_token, content_hash, is_token, law_token_is_never_blank, same_bytes, token_of,
    ContentHash,
};
use crate::headers::{all_values, first_value, get, header_contents};

verus! {

/// The seconds in a day.
pub const DAY: u64 = 86_400;

/// The shortest wait between two fetches of a page, in seconds.
pub const SHORTEST_DELAY: u64 = 600;

/// The longest wait between two fetches of a page, in seconds.
pub const LONGEST_DELAY: u64 = 604_800;

/// The start of 1990, in seconds since the start of 1970.
///
/// It lies after most time epochs, those of 1970 and 1980 among them, so that a file with the
/// timestamp zero on such a system is not believed, and before any web page that somebody might
/// want to watch.
pub const BEFORE_THE_WEB: i128 = 631_152_000;

/// A version of a page.
pub struct Page {
    /// The token of this version.
    pub hash: ContentHash,
    /// What the server sent.
    pub contents: Vec<u8>,
    /// The best guess of the time at which the page changed to this version, on the monotonic
    /// clock.
    pub last_changed: i128,
}

/// A version of a page, as the contracts speak of it.
#[verifier::ext_equal]
pub struct PageModel {
    pub hash: Seq<u8>,
    pub contents: Seq<u8>,
    pub last_changed: int,
}

impl View for Page {
    type V = PageModel;

    open spec fn view(&self) -> PageModel {
        PageModel {
            hash: self.hash@,
            contents: self.contents@,
            last_changed: self.last_changed as int,
        }
    }
}

impl PageModel {
    /// Whether the token belongs to the contents.
    pub open spec fn wf(self) -> bool {
        &&& self.hash == token_of(self.contents)
        &&& is_token(self.hash)
        &&& change_time_ok(self.last_changed)
    }
}

impl Page {
    /// Another copy of this version.
    pub fn copy(&self) -> (r: Page)
        ensures
            r@ == self@,
    {
        let contents = slice_to_vec(self.contents.as_slice());
        Page { hash: self.hash, contents, last_changed: self.last_changed }
    }
}

/// The answer to a request.
pub struct Reply {
    /// The status code.
    pub status: u16,
    /// The response headers.
    pub headers: HeaderMap,
    /// The body. A [`Watcher`] looks at it only if the status is 200.
    pub contents: Vec<u8>,
    /// When the headers arrived, on the wall clock.
    pub response_time: i128,
}

/// An answer, as the contracts speak of it.
pub struct ReplyModel {
    pub status: u16,
    pub headers: Map<Seq<char>, Seq<Seq<u8>>>,
    pub contents: Seq<u8>,
    pub response_time: int,
}

impl View for Reply {
    type V = ReplyModel;

    open spec fn view(&self) -> ReplyModel {
        ReplyModel {
            status: self.status,
            headers: header_contents(self.headers),
            contents: self.contents@,
            response_time: self.response_time as int,
        }
    }
}

/// What is remembered of a page between two fetches.
pub struct Watcher {
    // validators provided by the server
    etag: Option<Vec<u8>>,
    last_modified: Option<u64>,
    // when the last request that got an answer was sent, on the wall clock
    last_fetched: i128,
    // the best guess of the time of the last change, on the monotonic clock
    last_changed: i128,
    // the token of the latest version, blank before the first
    last_hash: ContentHash,
}

/// A [`Watcher`], as the contracts speak of it.
#[verifier::ext_equal]
pub struct WatchState {
    pub etag: Option<Seq<u8>>,
    pub last_modified: Option<u64>,
    pub last_fetched: int,
    pub last_changed: int,
    pub last_hash: Seq<u8>,
}

impl View for Watcher {
    type V = WatchState;

    closed spec fn view(&self) -> WatchState {
        WatchState {
            etag: match self.etag {
                Some(value) => Some(value@),
                None => None,
            },
            last_modified: self.last_modified,
            last_fetched: self.last_fetched as int,
            last_changed: self.last_changed as int,
            last_hash: self.last_hash@,
        }
    }
}

/// Whether `t` can be a time of change: a time on the clock, less the time between two fetches.
pub open spec fn change_time_ok(t: int) -> bool {
    -36_893_488_147_419_103_232 * NANOS <= t < 9_223_372_036_854_775_808 * NANOS
}

impl WatchState {
    /// What every operation keeps: the times are times of a clock, the date can be written down,
    /// and the token is blank or that of some contents.
    pub open spec fn wf(self) -> bool {
        &&& on_clock(self.last_fetched)
        &&& change_time_ok(self.last_changed)
        &&& self.last_modified matches Some(secs) ==> secs < DATE_LIMIT
        &&& self.last_hash == blank_token() || is_token(self.last_hash)
    }
}

/// The state before the first fetch.
pub open spec fn first_state(now: int) -> WatchState {
    WatchState {
        etag: None,
        last_modified: None,
        last_fetched: BEFORE_THE_WEB * NANOS,
        last_changed: now,
        last_hash: blank_token(),
    }
}

/// When the origin server generated a response: what its `date` header says, or else when it
/// arrived.
pub open spec fn date_of(reply: ReplyModel) -> int {
    match date_value(reply.headers, "date"@) {
        Some(secs) => secs * NANOS,
        None => reply.response_time,
    }
}

/// How long ago, in nanoseconds, the page changed according to its `last-modified` header, if that
/// is plausible: the page changed after the previous fetch, so a change before that fetch is
/// nonsense. The header is held against the server's clock and the fetch against ours.
pub open spec fn plausible_change_age(
    last_fetched: int,
    request_time: int,
    reply: ReplyModel,
) -> Option<int> {
    let age = age_of(reply.headers, request_time, reply.response_time);
    match date_value(reply.headers, "last-modified"@) {
        Some(secs) => if secs * NANOS <= date_of(reply) {
            let ago = date_of(reply) - secs * NANOS + age * NANOS;
            if last_fetched <= request_time && ago < request_time - last_fetched {
                Some(ago)
            } else {
                None
            }
        } else {
            None
        },
        None => None,
    }
}

/// Whether a reply brings a version that was not there before.
pub open spec fn brings_change(state: WatchState, reply: ReplyModel) -> bool {
    reply.status == 200 && token_of(reply.contents) != state.last_hash
}

/// When the page changed, as far as is known after a reply that was worked through at `now`.
pub open spec fn changed_at(
    state: WatchState,
    request_time: int,
    reply: ReplyModel,
    now: int,
) -> int {
    if brings_change(state, reply) {
        match plausible_change_age(state.last_fetched, request_time, reply) {
            Some(ago) => now - ago,
            None => now,
        }
    } else {
        state.last_changed
    }
}

/// The state after a reply to a request that was sent at `request_time`.
pub open spec fn after_reply(
    state: WatchState,
    request_time: int,
    reply: ReplyModel,
    now: int,
) -> WatchState {
    if reply.status == 200 {
        WatchState {
            etag: first_value(reply.headers, "etag"@),
            last_modified: date_value(reply.headers, "last-modified"@),
            last_fetched: request_time,
            last_changed: changed_at(state, request_time, reply, now),
            last_hash: token_of(reply.contents),
        }
    } else {
        WatchState { last_fetched: request_time, ..state }
    }
}

/// The version that a reply brings.
pub open spec fn page_of(
    state: WatchState,
    request_time: int,
    reply: ReplyModel,
    now: int,
) -> PageModel {
    PageModel {
        hash: token_of(reply.contents),
        contents: reply.contents,
        last_changed: changed_at(state, request_time, reply, now),
    }
}

/// For how many seconds the origin does not want to be asked again: the lifetime that it gave the
/// reply, less its age; or, if it was asked too often, what its `retry-after` header says, where
/// that is longer. A date there is held against the server's clock.
pub open spec fn max_age_of(request_time: int, reply: ReplyModel) -> nat {
    let lifetime = remaining_lifetime(
        reply.headers,
        date_of(reply),
        age_of(reply.headers, request_time, reply.response_time),
    );
    let forced = forced_wait(reply.status, reply.headers, date_of(reply));
    if forced > lifetime {
        forced
    } else {
        lifetime
    }
}

/// How many seconds to wait before the next fetch: the longer of the origin's hint and of a tenth
/// of the time since the last change, but neither forever nor not at all.
pub open spec fn delay_spec(last_changed: int, max_age: nat, now: int) -> nat {
    let unchanged_for = match seconds_between(last_changed, now) {
        Some(s) => s,
        None => 0,
    };
    let hint = if unchanged_for / 10 >= max_age {
        unchanged_for / 10
    } else {
        max_age
    };
    if hint < SHORTEST_DELAY {
        SHORTEST_DELAY as nat
    } else if hint > LONGEST_DELAY {
        LONGEST_DELAY as nat
    } else {
        hint
    }
}

/// The validators to send with a request.
pub struct Conditions {
    /// The value of the `etag` header of the latest version.
    pub etag: Option<Vec<u8>>,
    /// The date in its `last-modified` header, in seconds since the start of 1970.
    pub last_modified: Option<u64>,
}

/// What is to be done after a fetch.
pub struct Observation {
    /// The new version, if there is one.
    pub page: Option<Page>,
    /// For how many seconds the origin server does not want to be asked again.
    pub max_age: u64,
}

impl Watcher {
    /// Starts to watch a page.
    pub fn new(now: i128) -> (r: Watcher)
        requires
            on_clock(now as int),
        ensures
            r@ == first_state(now as int),
            r@.wf(),
    {
        let blank: ContentHash = [0u8; 8];
        assert(blank@ =~= blank_token());
        Watcher {
            etag: None,
            last_modified: None,
            last_fetched: BEFORE_THE_WEB * NANOS,
            last_changed: now,
            last_hash: blank,
        }
    }

    /// The validators to send with the next request.
    pub fn conditions(&self) -> (r: Conditions)
        ensures
            r.last_modified == self@.last_modified,
            match r.etag {
                Some(value) => self@.etag == Some(value@),
                None => self@.etag is None,
            },
    {
        let etag = match &self.etag {
            Some(value) => Some(slice_to_vec(value.as_slice())),
            None => None,
        };
        Conditions { etag, last_modified: self.last_modified }
    }

    /// Works through the answer to a request that was sent at `request_time`, or through its
    /// failure: there is no reply if the request could not be sent, or if its body could not be
    /// read. `now` is read on the monotonic clock once the answer is complete.
    pub fn observe(&mut self, request_time: i128, reply: Option<Reply>, now: i128) -> (r:
        Observation)
        requires
            old(self)@.wf(),
            on_clock(request_time as int),
            on_clock(now as int),
            reply matches Some(answer) ==> on_clock(answer.response_time as int),
        ensures
            final(self)@.wf(),
            match reply {
                Some(answer) => {
                    &&& final(self)@ == after_reply(
                        old(self)@,
                        request_time as int,
                        answer@,
                        now as int,
                    )
                    &&& r.max_age == max_age_of(request_time as int, answer@)
                    &&& match r.page {
                        Some(page) => brings_change(old(self)@, answer@) && page@ == page_of(
                            old(self)@,
                            request_time as int,
                            answer@,
                            now as int,
                        ) && page@.wf(),
                        None => !brings_change(old(self)@, answer@),
                    }
                },
                None => {
                    &&& final(self)@ == old(self)@
                    &&& r.max_age == 0
                    &&& r.page is None
                },
            },
    {
        proof {
            reveal_strlit("date");
            reveal_strlit("etag");
            reveal_strlit("last-modified");
        }
        let answer = match reply {
            Some(answer) => answer,
            None => {
                return Observation { page: None, max_age: 0 };
            },
        };
        let ghost model = answer@;
        let headers = &answer.headers;
        let date: i128 = match get_date(headers, "date") {
            Some(secs) => secs as i128 * NANOS,
            None => answer.response_time,
        };
        let age: u64 = compute_age(headers, request_time, answer.response_time);
        let lifetime: u64 = lifetime_left(headers, date, age);
        let forced: u64 = compute_forced_wait(answer.status, headers, date);
        let max_age: u64 = if forced > lifetime {
            forced
        } else {
            lifetime
        };
        let mut page: Option<Page> = None;
        if answer.status == 200 {
            self.etag = get(headers, "etag");
            self.last_modified = get_date(headers, "last-modified");
            let hash = content_hash(answer.contents.as_slice());
            if !same_bytes(&self.last_hash, hash.as_slice()) {
                self.last_hash = hash;
                self.last_changed = now;
                if let Some(secs) = self.last_modified {
                    let modified: i128 = secs as i128 * NANOS;
                    if modified <= date && self.last_fetched <= request_time {
                        let ago: i128 = date - modified + age as i128 * NANOS;
                        if ago < request_time - self.last_fetched {
                            self.last_changed = now - ago;
                        }
                    }
                }
                page = Some(
                    Page { hash, contents: answer.contents, last_changed: self.last_changed },
                );
            }
        }
        // only an answer counts as a fetch, because a change can be missed while the network is
        // down
        self.last_fetched = request_time;
        Observation { page, max_age }
    }

    /// How many seconds to wait before the next fetch, if the last one gave this `max_age`.
    pub fn delay(&self, max_age: u64, now: i128) -> (r: u64)
        requires
            self@.wf(),
            on_clock(now as int),
        ensures
            r == delay_spec(self@.last_changed, max_age as nat, now as int),
            SHORTEST_DELAY <= r <= LONGEST_DELAY,
    {
        let unchanged_for: u128 = if self.last_changed <= now {
            (now - self.last_changed) as u128 / 1_000_000_000
        } else {
            0
        };
        let freshness: u128 = unchanged_for / 10;
        let hint: u128 = if freshness >= max_age as u128 {
            freshness
        } else {
            max_age as u128
        };
        if hint < SHORTEST_DELAY as u128 {
            SHORTEST_DELAY
        } else if hint > LONGEST_DELAY as u128 {
            LONGEST_DELAY
        } else {
            hint as u64
        }
    }
}

/// A header to send: its name and its value.
pub struct HeaderLine {
    pub name: String,
    pub value: Vec<u8>,
}

impl View for HeaderLine {
    type V = (Seq<char>, Seq<u8>);

    open spec fn view(&self) -> (Seq<char>, Seq<u8>) {
        (self.name@, self.value@)
    }
}

/// The headers of a conditional request.
pub open spec fn condition_headers_spec(etag: Option<Seq<u8>>, last_modified: Option<u64>) -> Seq<
    (Seq<char>, Seq<u8>),
> {
    let first = match etag {
        Some(value) => seq![("if-none-match"@, value)],
        None => Seq::empty(),
    };
    match last_modified {
        Some(secs) => first.push(("if-modified-since"@, encode_utf8(http_date_text(secs)))),
        None => first,
    }
}

/// The headers that make a request conditional: the validators are sent back to the server that
/// gave them.
pub fn condition_headers(conditions: &Conditions) -> (r: Vec<HeaderLine>)
    requires
        conditions.last_modified matches Some(secs) ==> secs < DATE_LIMIT,
    ensures
        r@.map_values(|line: HeaderLine| line@) == condition_headers_spec(
            match conditions.etag {
                Some(value) => Some(value@),
                None => None,
            },
            conditions.last_modified,
        ),
        conditions.last_modified matches Some(secs) ==> r@.len() > 0 && http_date_secs(
            r@.last().value@,
        ) == Some(secs),
{
    let mut lines: Vec<HeaderLine> = Vec::new();
    if let Some(value) = &conditions.etag {
        lines.push(
            HeaderLine {
                name: "if-none-match".to_owned(),
                value: slice_to_vec(value.as_slice()),
            },
        );
    }
    if let Some(secs) = conditions.last_modified {
        let text = date_text(secs);
        lines.push(
            HeaderLine {
                name: "if-modified-since".to_owned(),
                value: text.as_str().as_bytes_vec(),
            },
        );
    }
    assert(lines@.map_values(|line: HeaderLine| line@) =~= condition_headers_spec(
        match conditions.etag {
            Some(value) => Some(value@),
            None => None,
        },
        conditions.last_modified,
    ));
    lines
}

/// One fetch: a request, its answer or failure, and the moment at which it was worked through.
pub struct Fetch {
    pub request_time: int,
    pub reply: Option<ReplyModel>,
    pub now: int,
}

/// The state after a fetch.
pub open spec fn after_fetch(state: WatchState, fetch: Fetch) -> WatchState {
    match fetch.reply {
        Some(reply) => after_reply(state, fetch.request_time, reply, fetch.now),
        None => state,
    }
}

/// Whether a fetch is reported as a change.
pub open spec fn reports_change(state: WatchState, fetch: Fetch) -> bool {
    match fetch.reply {
        Some(reply) => brings_change(state, reply),
        None => false,
    }
}

/// The state after some fetches, one after the other.
pub open spec fn after_fetches(state: WatchState, fetches: Seq<Fetch>) -> WatchState
    decreases fetches.len(),
{
    if fetches.len() == 0 {
        state
    } else {
        after_fetch(after_fetches(state, fetches.drop_last()), fetches.last())
    }
}

/// Whether a fetch got no version of the page: no answer, or an answer other than 200.
pub open spec fn brings_nothing(fetch: Fetch) -> bool {
    fetch.reply matches Some(reply) ==> reply.status != 200
}

/// Whether a fetch got no version of the page but the one with this token.
pub open spec fn brings_only(fetch: Fetch, token: Seq<u8>) -> bool {
    fetch.reply matches Some(reply) ==> reply.status == 200 ==> token_of(reply.contents) == token
}

/// Whether a state remembers the same version as another, and the same validators for it.
pub open spec fn remembers_the_same(a: WatchState, b: WatchState) -> bool {
    &&& a.etag == b.etag
    &&& a.last_modified == b.last_modified
    &&& a.last_changed == b.last_changed
    &&& a.last_hash == b.last_hash
}

/// Failures, and answers other than 200 such as 304 and server errors, are never reported, and
/// what is remembered of the page outlives any number of them.
pub proof fn law_errors_are_ignored(state: WatchState, fetches: Seq<Fetch>, last: Fetch)
    requires
        forall|i: int| 0 <= i < fetches.len() ==> brings_nothing(#[trigger] fetches[i]),
        brings_nothing(last),
    ensures
        remembers_the_same(after_fetches(state, fetches), state),
        !reports_change(after_fetches(state, fetches), last),
    decreases fetches.len(),
{
    if fetches.len() > 0 {
        let before = fetches.drop_last();
        assert forall|i: int| 0 <= i < before.len() implies brings_nothing(#[trigger] before[i]) by {
            assert(before[i] == fetches[i]);
        }
        law_errors_are_ignored(state, before, fetches.last());
    }
}

/// As long as the server sends nothing but the version that is known, nothing is reported and the
/// time of the last change stays.
pub proof fn law_unchanged_page_is_not_reported(
    state: WatchState,
    fetches: Seq<Fetch>,
    last: Fetch,
)
    requires
        forall|i: int|
            0 <= i < fetches.len() ==> brings_only(#[trigger] fetches[i], state.last_hash),
        brings_only(last, state.last_hash),
    ensures
        after_fetches(state, fetches).last_hash == state.last_hash,
        after_fetches(state, fetches).last_changed == state.last_changed,
        !reports_change(after_fetches(state, fetches), last),
    decreases fetches.len(),
{
    if fetches.len() > 0 {
        let before = fetches.drop_last();
        assert forall|i: int| 0 <= i < before.len() implies brings_only(
            #[trigger] before[i],
            state.last_hash,
        ) by {
            assert(before[i] == fetches[i]);
        }
        law_unchanged_page_is_not_reported(state, before, fetches.last());
    }
}

/// The first version of a page is always reported, whatever failed before it.
pub proof fn law_first_version_is_reported(now: int, failures: Seq<Fetch>, fetch: Fetch)
    requires
        forall|i: int| 0 <= i < failures.len() ==> brings_nothing(#[trigger] failures[i]),
        fetch.reply matches Some(reply) && reply.status == 200,
    ensures
        reports_change(after_fetches(first_state(now), failures), fetch),
{
    let quiet = Fetch { request_time: 0, reply: None, now: 0 };
    law_errors_are_ignored(first_state(now), failures, quiet);
    law_token_is_never_blank(fetch.reply->0.contents);
}

/// A version that differs from the one before it, by its token, is reported when it comes, and once.
pub proof fn law_change_is_reported_once(state: WatchState, fetch: Fetch, again: Fetch)
    requires
        fetch.reply matches Some(reply) && reply.status == 200 && token_of(reply.contents)
            != state.last_hash,
        fetch.reply matches Some(reply) && brings_only(again, token_of(reply.contents)),
    ensures
        reports_change(state, fetch),
        !reports_change(after_fetch(state, fetch), again),
{
}

/// The validators of the latest version go out with every request until the next version comes:
/// failures and answers other than 200 do not lose them.
pub proof fn law_validators_come_back(
    state: WatchState,
    request_time: int,
    reply: ReplyModel,
    now: int,
    fetches: Seq<Fetch>,
)
    requires
        reply.status == 200,
        forall|i: int| 0 <= i < fetches.len() ==> brings_nothing(#[trigger] fetches[i]),
    ensures
        ({
            let later = after_fetches(after_reply(state, request_time, reply, now), fetches);
            condition_headers_spec(later.etag, later.last_modified) == condition_headers_spec(
                first_value(reply.headers, "etag"@),
                date_value(reply.headers, "last-modified"@),
            )
        }),
{
    let quiet = Fetch { request_time: 0, reply: None, now: 0 };
    law_errors_are_ignored(after_reply(state, request_time, reply, now), fetches, quiet);
}

/// A change is dated at the moment at which it was seen, or earlier, but always later than the
/// previous fetch, counted back from that moment.
pub proof fn law_change_is_dated_between_fetches(
    state: WatchState,
    request_time: int,
    reply: ReplyModel,
    now: int,
)
    requires
        brings_change(state, reply),
    ensures
        ({
            let changed = after_reply(state, request_time, reply, now).last_changed;
            &&& changed <= now
            &&& changed == now || now - changed < request_time - state.last_fetched
        }),
{
}

/// A `last-modified` date that lies before the previous fetch is not believed. The server's clock,
/// corrected by the age of the answer, must not be behind ours: a server whose clock is years
/// behind may name a date before 1990 and be believed.
pub proof fn law_implausible_date_is_ignored(
    state: WatchState,
    request_time: int,
    reply: ReplyModel,
    now: int,
    modified: u64,
)
    requires
        brings_change(state, reply),
        date_value(reply.headers, "last-modified"@) == Some(modified),
        modified * NANOS <= state.last_fetched,
        request_time <= date_of(reply) + age_of(
            reply.headers,
            request_time,
            reply.response_time,
        ) * NANOS,
    ensures
        after_reply(state, request_time, reply, now).last_changed == now,
{
}

/// The wait is never shorter than ten minutes and never longer than a week.
pub proof fn law_delay_has_bounds(last_changed: int, max_age: nat, now: int)
    ensures
        600 <= delay_spec(last_changed, max_age, now) <= 7 * DAY,
{
}

/// The wait respects the origin's hint, or is the longest wait, if that is shorter.
pub proof fn law_delay_respects_max_age(last_changed: int, max_age: nat, now: int)
    ensures
        ({
            let wait = delay_spec(last_changed, max_age, now);
            wait >= max_age || wait == LONGEST_DELAY
        }),
{
}

/// An answer whose `max-age` is N is not revalidated before it is N seconds old, or the longest wait
/// is over, if that is shorter.
pub proof fn law_wait_respects_max_age(
    state: WatchState,
    request_time: int,
    reply: ReplyModel,
    now: int,
    n: u64,
)
    requires
        max_age_in(all_values(reply.headers, "cache-control"@)) == Some(n),
    ensures
        ({
            let wait = delay_spec(
                after_reply(state, request_time, reply, now).last_changed,
                max_age_of(request_time, reply),
                now,
            );
            ||| wait + age_of(reply.headers, request_time, reply.response_time) >= n
            ||| wait == LONGEST_DELAY
        }),
{
}

/// An answer without a valid `max-age` is not revalidated before the date in its `expires` header,
/// on the server's clock and to the second, or the longest wait is over, if that is shorter.
pub proof fn law_wait_respects_expires(
    state: WatchState,
    request_time: int,
    reply: ReplyModel,
    now: int,
    expires: u64,
)
    requires
        max_age_in(all_values(reply.headers, "cache-control"@)) is None,
        date_value(reply.headers, "expires"@) == Some(expires),
    ensures
        ({
            let wait = delay_spec(
                after_reply(state, request_time, reply, now).last_changed,
                max_age_of(request_time, reply),
                now,
            );
            let age = age_of(reply.headers, request_time, reply.response_time);
            ||| date_of(reply) + (wait + age) * NANOS > (expires - 1) * NANOS
            ||| wait == LONGEST_DELAY
        }),
{
}

/// A server that was asked too often is not asked again before the time that its `retry-after`
/// header gives is over, or the longest wait, if that is shorter.
pub proof fn law_wait_respects_retry_after(
    state: WatchState,
    request_time: int,
    reply: ReplyModel,
    now: int,
    n: nat,
)
    requires
        reply.status == TOO_MANY_REQUESTS,
        retry_after(reply.headers, date_of(reply)) == Some(n),
    ensures
        ({
            let wait = delay_spec(
                after_reply(state, request_time, reply, now).last_changed,
                max_age_of(request_time, reply),
                now,
            );
            wait >= n || wait == LONGEST_DELAY
        }),
{
}

/// The longer a page has stayed unchanged, the longer the wait.
pub proof fn law_delay_grows(last_changed: int, max_age: nat, now: int, later: int)
    requires
        now <= later,
    ensures
        delay_spec(last_changed, max_age, now) <= delay_spec(last_changed, max_age, later),
{
    if last_changed <= now {
        assert((now - last_changed) / NANOS as int <= (later - last_changed) / NANOS as int);
    }
}

/// A valid `max-age` decides the lifetime, whatever `expires` and `date` say.
pub proof fn law_max_age_is_preferred(
    headers: Map<Seq<char>, Seq<Seq<u8>>>,
    other: Map<Seq<char>, Seq<Seq<u8>>>,
    date: int,
    other_date: int,
    age: nat,
)
    requires
        max_age_in(all_values(headers, "cache-control"@)) is Some,
        all_values(headers, "cache-control"@) == all_values(other, "cache-control"@),
    ensures
        remaining_lifetime(headers, date, age) == remaining_lifetime(other, other_date, age),
{
}

/// Nothing is known of a page before its first fetch: no validator, and no version. It counts as
/// changed now, and as fetched at the start of 1990.
pub proof fn law_nothing_is_known_at_first(now: int)
    ensures
        ({
            let state = first_state(now);
            &&& state.etag is None
            &&& state.last_modified is None
            &&& state.last_fetched == 7_305 * 86_400 * 1_000_000_000
            &&& state.last_changed == now
            &&& state.last_hash == seq![0u8, 0, 0, 0, 0, 0, 0, 0]
        }),
{
}

/// An answer was generated when its `date` header says, or, if that says nothing, when it arrived.
pub proof fn law_answer_is_dated_by_its_server(reply: ReplyModel)
    ensures
        date_value(reply.headers, "date"@) matches Some(secs) ==> date_of(reply) == secs
            * 1_000_000_000,
        date_value(reply.headers, "date"@) is None ==> date_of(reply) == reply.response_time,
{
}

/// A version is reported exactly if its answer has the status 200 and its token is not that of the
/// version before it; and it is reported with that token, with all that the server sent, and with the
/// time of change that is remembered.
pub proof fn law_reported_version_is_the_one_sent(
    state: WatchState,
    request_time: int,
    reply: ReplyModel,
    now: int,
)
    ensures
        brings_change(state, reply) <==> reply.status == 200 && token_of(reply.contents)
            != state.last_hash,
        ({
            let page = page_of(state, request_time, reply, now);
            &&& page.hash == token_of(reply.contents)
            &&& page.contents == reply.contents
            &&& brings_change(state, reply) ==> page.last_changed == after_reply(
                state,
                request_time,
                reply,
                now,
            ).last_changed
        }),
{
}

/// A plausible `last-modified` date is believed, exactly: a change that the server dates after the
/// previous fetch, each counted back on its own clock, is dated as long ago as the server says.
pub proof fn law_plausible_date_is_believed(
    state: WatchState,
    request_time: int,
    reply: ReplyModel,
    now: int,
    modified: u64,
    date: int,
    ago: int,
)
    requires
        reply.status == 200,
        token_of(reply.contents) != state.last_hash,
        date_value(reply.headers, "last-modified"@) == Some(modified),
        date == (match date_value(reply.headers, "date"@) {
            Some(secs) => secs * 1_000_000_000,
            None => reply.response_time,
        }),
        modified * 1_000_000_000 <= date,
        ago == date - modified * 1_000_000_000 + age_of(
            reply.headers,
            request_time,
            reply.response_time,
        ) * 1_000_000_000,
        state.last_fetched <= request_time,
        ago < request_time - state.last_fetched,
    ensures
        after_reply(state, request_time, reply, now).last_changed == now - ago,
        page_of(state, request_time, reply, now).last_changed == now - ago,
{
}

/// A change is dated now if no `last-modified` date can be believed: there is none, it lies in the
/// future, or it lies so far back that the previous fetch would have seen the change.
pub proof fn law_other_dates_are_not_believed(
    state: WatchState,
    request_time: int,
    reply: ReplyModel,
    now: int,
    date: int,
)
    requires
        reply.status == 200,
        token_of(reply.contents) != state.last_hash,
        date == (match date_value(reply.headers, "date"@) {
            Some(secs) => secs * 1_000_000_000,
            None => reply.response_time,
        }),
        date_value(reply.headers, "last-modified"@) matches Some(modified) ==> modified
            * 1_000_000_000 > date || state.last_fetched > request_time || date - modified
            * 1_000_000_000 + age_of(reply.headers, request_time, reply.response_time)
            * 1_000_000_000 >= request_time - state.last_fetched,
    ensures
        after_reply(state, request_time, reply, now).last_changed == now,
        page_of(state, request_time, reply, now).last_changed == now,
{
}

/// Whatever the answer, the fetch is remembered by the time of its request. An answer with the status
/// 200 replaces the validators and the token, and the time of change if the token is another one; any
/// other answer leaves all three.
pub proof fn law_answer_is_remembered(
    state: WatchState,
    request_time: int,
    reply: ReplyModel,
    now: int,
)
    ensures
        ({
            let after = after_reply(state, request_time, reply, now);
            &&& after.last_fetched == request_time
            &&& reply.status == 200 ==> {
                &&& after.etag == first_value(reply.headers, "etag"@)
                &&& after.last_modified == date_value(reply.headers, "last-modified"@)
                &&& after.last_hash == token_of(reply.contents)
                &&& token_of(reply.contents) == state.last_hash ==> after.last_changed
                    == state.last_changed
            }
            &&& reply.status != 200 ==> {
                &&& after.etag == state.etag
                &&& after.last_modified == state.last_modified
                &&& after.last_hash == state.last_hash
                &&& after.last_changed == state.last_changed
            }
        }),
{
}

/// The age of an answer is taken off its `max-age`, or else off the time up to its `expires` date,
/// all of it and once; what is left is what the origin is reported to ask for, unless it was asked too
/// often.
pub proof fn law_age_is_taken_off(request_time: int, reply: ReplyModel)
    requires
        reply.status != 429,
    ensures
        ({
            let age: int = age_of(reply.headers, request_time, reply.response_time) as int;
            let date = match date_value(reply.headers, "date"@) {
                Some(secs) => secs * 1_000_000_000,
                None => reply.response_time,
            };
            let asked: int = max_age_of(request_time, reply) as int;
            match max_age_in(all_values(reply.headers, "cache-control"@)) {
                Some(n) => asked == (if n > age {
                    n - age
                } else {
                    0
                }),
                None => match date_value(reply.headers, "expires"@) {
                    Some(expires) => asked == (if (expires * 1_000_000_000 - date) / 1_000_000_000
                        > age {
                        (expires * 1_000_000_000 - date) / 1_000_000_000 - age
                    } else {
                        0
                    }),
                    None => asked == 0,
                },
            }
        }),
{
}

/// What is asked of a client that has sent too many requests is the longer of two waits: what its
/// `retry-after` header says, and what would be asked for without it.
pub proof fn law_retry_after_adds_to_lifetime(request_time: int, reply: ReplyModel)
    requires
        reply.status == 429,
    ensures
        ({
            let asked = max_age_of(request_time, reply);
            let other = max_age_of(request_time, ReplyModel { status: 200, ..reply });
            let date = match date_value(reply.headers, "date"@) {
                Some(secs) => secs * 1_000_000_000,
                None => reply.response_time,
            };
            match retry_after(reply.headers, date) {
                Some(n) => asked >= n && asked >= other && (asked == n || asked == other),
                None => asked == other,
            }
        }),
{
}

/// The wait is the longest of ten minutes, of what the origin asks for, and of a tenth of the whole
/// seconds since the last change; or a week, if that is shorter.
pub proof fn law_delay_is_the_longest_hint(
    last_changed: int,
    max_age: nat,
    now: int,
    unchanged: nat,
)
    requires
        last_changed <= now ==> unchanged * 1_000_000_000 <= now - last_changed < (unchanged + 1)
            * 1_000_000_000,
        last_changed > now ==> unchanged == 0,
    ensures
        ({
            let wait = delay_spec(last_changed, max_age, now);
            &&& 600 <= wait <= 604_800
            &&& wait == 604_800 || (wait >= max_age && wait >= unchanged / 10)
            &&& wait == 600 || wait <= max_age || wait <= unchanged / 10
        }),
{
}

/// The wait is not longer than anything asks for: with a `max-age`, it is at most ten minutes, what
/// the age of the answer leaves of that, or a tenth of the time since the last change.
pub proof fn law_wait_is_not_too_long(
    state: WatchState,
    request_time: int,
    reply: ReplyModel,
    now: int,
    n: u64,
)
    requires
        reply.status != 429,
        max_age_in(all_values(reply.headers, "cache-control"@)) == Some(n),
    ensures
        ({
            let changed = after_reply(state, request_time, reply, now).last_changed;
            let wait = delay_spec(changed, max_age_of(request_time, reply), now);
            let age = age_of(reply.headers, request_time, reply.response_time);
            ||| wait == 600
            ||| wait + age <= n
            ||| 10 * wait * 1_000_000_000 <= now - changed
        }),
{
}

/// The validators go out as they came, each under the name of its header, and nothing else does.
pub proof fn law_conditions_are_the_validators(
    etag: Option<Seq<u8>>,
    last_modified: Option<u64>,
)
    ensures
        match (etag, last_modified) {
            (Some(value), Some(secs)) => condition_headers_spec(etag, last_modified) == seq![
                ("if-none-match"@, value),
                ("if-modified-since"@, encode_utf8(http_date_text(secs))),
            ],
            (Some(value), None) => condition_headers_spec(etag, last_modified) == seq![
                ("if-none-match"@, value),
            ],
            (None, Some(secs)) => condition_headers_spec(etag, last_modified) == seq![
                ("if-modified-since"@, encode_utf8(http_date_text(secs))),
            ],
            (None, None) => condition_headers_spec(etag, last_modified).len() == 0,
        },
{
}

/// A version and an answer are what their fields hold.
pub proof fn law_models_are_the_fields(page: Page, reply: Reply, line: HeaderLine)
    ensures
        page@.hash == page.hash@,
        page@.contents == page.contents@,
        page@.last_changed == page.last_changed,
        reply@.status == reply.status,
        reply@.headers == header_contents(reply.headers),
        reply@.contents == reply.contents@,
        reply@.response_time == reply.response_time,
        line@ == (line.name@, line.value@),
{
}

} // verus!
