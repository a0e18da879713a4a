//! A simpler server: it fetches each page once an hour, unless the server of the page asks to be left
//! alone for longer, and sends its clients the contents alone.

use vstd::hash_map::StringHashMap;
use vstd::prelude::*;
use vstd::slice::*;
use vstd::string::*;
use vstd::utf8::*;

use crate::dates::on_clock;
use crate::freshness::{compute_forced_wait, forced_wait, retry_after, TOO_MANY_REQUESTS};
use crate::hash::{
    blank_token, content_hash, law_token_is_never_blank, same_bytes, token_of, ContentHash,
};
use crate::pages::wanted;
use crate::response::{text_response, text_response_spec, Response, ResponseModel};
use crate::text::text_eq;
use crate::uris::route;
use crate::watch::{Reply, ReplyModel};

verus! {

/// How many seconds lie between two fetches of a page, if its server does not ask for more.
pub const POLL_DELAY: u64 = 3600;

/// The latest version of a page. Before there is one, the token is blank.
pub struct Page {
    pub hash: ContentHash,
    pub contents: Vec<u8>,
}

/// A version of a page, as the contracts speak of it.
#[verifier::ext_equal]
pub struct PageModel {
    pub hash: Seq<u8>,
    pub contents: Seq<u8>,
}

impl View for Page {
    type V = PageModel;

    open spec fn view(&self) -> PageModel {
        PageModel { hash: self.hash@, contents: self.contents@ }
    }
}

/// The slot of a page of which there is no version yet.
pub open spec fn blank_page() -> PageModel {
    PageModel { hash: blank_token(), contents: Seq::empty() }
}

impl Default for Page {
    fn default() -> (r: Page)
        ensures
            r@ == blank_page(),
    {
        let r = Page { hash: [0u8; 8], contents: Vec::new() };
        assert(r@.hash =~= blank_token());
        r
    }
}

/// The version with these contents.
pub open spec fn version_of(contents: Seq<u8>) -> PageModel {
    PageModel { hash: token_of(contents), contents }
}

/// The pages that are watched, and the latest version of each.
pub struct Pages {
    watching: StringHashMap<Page>,
}

impl View for Pages {
    type V = Map<Seq<char>, PageModel>;

    closed spec fn view(&self) -> Self::V {
        Map::new(
            |uri: Seq<char>| self.watching@.contains_key(uri),
            |uri: Seq<char>| self.watching@[uri]@,
        )
    }
}

/// The pages after somebody asked for `uri`.
pub open spec fn after_lookup(
    pages: Map<Seq<char>, PageModel>,
    uri: Seq<char>,
) -> Map<Seq<char>, PageModel> {
    if pages.contains_key(uri) {
        pages
    } else {
        pages.insert(uri, blank_page())
    }
}

/// The contents of `uri` for a client that has seen `seen`: none as long as there is no version or
/// the latest is the one that the client has seen.
pub open spec fn contents_for(
    pages: Map<Seq<char>, PageModel>,
    uri: Seq<char>,
    seen: Seq<char>,
) -> Option<Seq<u8>> {
    if pages.contains_key(uri) && pages[uri].hash != blank_token() && pages[uri].hash
        != encode_utf8(seen) {
        Some(pages[uri].contents)
    } else {
        None
    }
}

/// Whether freshly fetched contents are a new version of a page.
pub open spec fn is_modified(page: PageModel, contents: Seq<u8>) -> bool {
    token_of(contents) != page.hash
}

/// How many seconds lie between an answer and the next fetch: an hour, or what a server that was
/// asked too often asks for, if that is longer.
pub open spec fn poll_delay(
    status: u16,
    headers: Map<Seq<char>, Seq<Seq<u8>>>,
    response_time: int,
) -> nat {
    let forced = forced_wait(status, headers, response_time);
    if forced > POLL_DELAY {
        forced
    } else {
        POLL_DELAY as nat
    }
}

/// What is to be done after a fetch.
pub struct Polled {
    /// Whether the page has changed, and those who wait for it are to be told.
    pub modified: bool,
    /// How many seconds to wait before the next fetch.
    pub delay: u64,
}

/// What a client that waits for a page gets.
pub enum Wait {
    /// The contents of a version that the client has not seen.
    Ready(Vec<u8>),
    /// Nothing yet: ask again after the page has changed. If `start` is set, the page is not
    /// watched yet, and a watcher has to be started for it.
    Pending { start: bool },
}

/// What is to be done with a request.
pub enum Step {
    /// Send this response.
    Reply(Response),
    /// Wait until the page changes, and ask again. If `start` is set, start a watcher for the page.
    Wait { uri: String, start: bool },
}

impl Pages {
    /// No page is watched yet.
    pub fn new() -> (r: Pages)
        ensures
            r@ == Map::<Seq<char>, PageModel>::empty(),
    {
        let r = Pages { watching: StringHashMap::new() };
        assert(r@ =~= Map::<Seq<char>, PageModel>::empty());
        r
    }

    /// Looks for a version of a page that the client has not seen, and sees to it that the page is
    /// watched.
    pub fn wait_for_change(&mut self, uri: &str, seen: &str) -> (r: Wait)
        ensures
            final(self)@ == after_lookup(old(self)@, uri@),
            match r {
                Wait::Ready(contents) => contents_for(old(self)@, uri@, seen@) == Some(contents@),
                Wait::Pending { start } => {
                    &&& contents_for(old(self)@, uri@, seen@) is None
                    &&& start == !old(self)@.contains_key(uri@)
                },
            },
    {
        let blank: ContentHash = [0u8; 8];
        assert(blank@ =~= blank_token());
        match self.watching.get(uri) {
            Some(page) => {
                if !same_bytes(&page.hash, blank.as_slice()) && !same_bytes(
                    &page.hash,
                    seen.as_bytes(),
                ) {
                    return Wait::Ready(slice_to_vec(page.contents.as_slice()));
                }
                return Wait::Pending { start: false };
            },
            None => {},
        }
        self.watching.insert(uri.to_owned(), Page::default());
        assert(self@ =~= old(self)@.insert(uri@, blank_page()));
        Wait::Pending { start: true }
    }

    /// Takes in what came of a fetch. There is no reply if the request could not be sent, or if its
    /// body could not be read: then the page stays as it is, and is fetched again.
    pub fn watch(&mut self, uri: &str, reply: Option<Reply>) -> (r: Polled)
        requires
            old(self)@.contains_key(uri@),
            reply matches Some(answer) ==> on_clock(answer.response_time as int),
        ensures
            match reply {
                None => final(self)@ == old(self)@ && !r.modified && r.delay == POLL_DELAY,
                Some(answer) => {
                    &&& r.delay == poll_delay(
                        answer@.status,
                        answer@.headers,
                        answer@.response_time,
                    )
                    &&& r.modified == is_modified(old(self)@[uri@], answer@.contents)
                    &&& final(self)@ == (if r.modified {
                        old(self)@.insert(uri@, version_of(answer@.contents))
                    } else {
                        old(self)@
                    })
                },
            },
    {
        let answer = match reply {
            Some(answer) => answer,
            None => {
                return Polled { modified: false, delay: POLL_DELAY };
            },
        };
        let forced: u64 = compute_forced_wait(
            answer.status,
            &answer.headers,
            answer.response_time,
        );
        let delay: u64 = if forced > POLL_DELAY {
            forced
        } else {
            POLL_DELAY
        };
        let contents = answer.contents;
        let hash = content_hash(contents.as_slice());
        let known = match self.watching.get(uri) {
            Some(page) => same_bytes(&page.hash, hash.as_slice()),
            None => false,
        };
        if known {
            return Polled { modified: false, delay };
        }
        let ghost model = contents@;
        self.watching.insert(uri.to_owned(), Page { hash, contents });
        assert(self@ =~= old(self)@.insert(uri@, version_of(model)));
        Polled { modified: true, delay }
    }

    /// Answers a request, or tells what to wait for. The target is the path and query of its URI.
    pub fn service(&mut self, target: Option<&str>) -> (r: Step)
        ensures
            match wanted(
                match target {
                    Some(t) => Some(t@),
                    None => None,
                },
            ) {
                Some((page_uri, seen)) => {
                    &&& final(self)@ == after_lookup(old(self)@, page_uri)
                    &&& match r {
                        Step::Reply(response) => {
                            &&& contents_for(old(self)@, page_uri, seen) is Some
                            &&& response@ == contents_response_spec(
                                contents_for(old(self)@, page_uri, seen)->0,
                            )
                        },
                        Step::Wait { uri, start } => {
                            &&& contents_for(old(self)@, page_uri, seen) is None
                            &&& uri@ == page_uri
                            &&& start == !old(self)@.contains_key(page_uri)
                        },
                    }
                },
                None => {
                    &&& final(self)@ == old(self)@
                    &&& r matches Step::Reply(response)
                    &&& response@ == text_response_spec(404, "not found"@)
                },
            },
    {
        let (action, uri) = match route(target) {
            Some(found) => found,
            None => {
                return Step::Reply(text_response(404, "not found"));
            },
        };
        let seen: &str = if text_eq(action, "cached") {
            ""
        } else {
            action
        };
        match self.wait_for_change(uri, seen) {
            Wait::Ready(contents) => {
                let response = Response { status: 200, headers: Vec::new(), body: contents };
                assert(response@.headers =~= Seq::<(Seq<char>, Seq<char>)>::empty());
                Step::Reply(response)
            },
            Wait::Pending { start } => Step::Wait { uri: uri.to_owned(), start },
        }
    }
}

/// The response with the contents of a page.
pub open spec fn contents_response_spec(contents: Seq<u8>) -> ResponseModel {
    ResponseModel { status: 200, headers: Seq::empty(), body: contents }
}

/// What can happen to the pages: a client asks for one, or a watcher has fetched one, or failed to.
pub enum Event {
    Asked { uri: Seq<char> },
    Fetched { uri: Seq<char>, reply: Option<ReplyModel> },
}

/// The pages after an event.
pub open spec fn after_event(
    pages: Map<Seq<char>, PageModel>,
    event: Event,
) -> Map<Seq<char>, PageModel> {
    match event {
        Event::Asked { uri } => after_lookup(pages, uri),
        Event::Fetched { uri, reply } => match reply {
            Some(answer) => if is_modified(pages[uri], answer.contents) {
                pages.insert(uri, version_of(answer.contents))
            } else {
                pages
            },
            None => pages,
        },
    }
}

/// The pages after some events, one after the other.
pub open spec fn after_events(
    pages: Map<Seq<char>, PageModel>,
    events: Seq<Event>,
) -> Map<Seq<char>, PageModel>
    decreases events.len(),
{
    if events.len() == 0 {
        pages
    } else {
        after_event(after_events(pages, events.drop_last()), events.last())
    }
}

/// Whether asking for a page starts a watcher.
pub open spec fn starts_watcher(pages: Map<Seq<char>, PageModel>, uri: Seq<char>) -> bool {
    !pages.contains_key(uri)
}

/// However many clients ask for a page, one watcher is started for it: the first request starts it,
/// and no later one starts another, whatever is asked for and fetched in between.
pub proof fn law_one_watcher_per_page(
    pages: Map<Seq<char>, PageModel>,
    uri: Seq<char>,
    events: Seq<Event>,
)
    ensures
        !starts_watcher(after_events(after_lookup(pages, uri), events), uri),
    decreases events.len(),
{
    if events.len() > 0 {
        law_one_watcher_per_page(pages, uri, events.drop_last());
    }
}

/// A new page gets a watcher, and other pages are not touched by it.
pub proof fn law_new_page_gets_watcher(
    pages: Map<Seq<char>, PageModel>,
    uri: Seq<char>,
    other: Seq<char>,
)
    requires
        !pages.contains_key(uri),
        other != uri,
    ensures
        starts_watcher(pages, uri),
        starts_watcher(after_lookup(pages, uri), other) == starts_watcher(pages, other),
        pages.contains_key(other) ==> after_lookup(pages, uri)[other] == pages[other],
{
}

/// A server that was asked too often is not asked again before the time that its `retry-after`
/// header gives is over; and no page is fetched more than once an hour.
pub proof fn law_poll_respects_retry_after(
    status: u16,
    headers: Map<Seq<char>, Seq<Seq<u8>>>,
    response_time: int,
    n: nat,
)
    requires
        retry_after(headers, response_time) == Some(n),
    ensures
        status == TOO_MANY_REQUESTS ==> poll_delay(status, headers, response_time) >= n,
        poll_delay(status, headers, response_time) >= POLL_DELAY,
{
}

/// Once a page has been fetched, a client that has seen nothing gets its contents: the token of a
/// version is never taken for a slot without one.
pub proof fn law_fetched_page_is_sent(
    pages: Map<Seq<char>, PageModel>,
    uri: Seq<char>,
    contents: Seq<u8>,
    seen: Seq<char>,
)
    requires
        token_of(contents) != encode_utf8(seen),
    ensures
        contents_for(pages.insert(uri, version_of(contents)), uri, seen) == Some(contents),
{
    law_token_is_never_blank(contents);
}

/// A page without a version is sent to nobody, and whatever is fetched first is a new version.
pub proof fn law_blank_page_waits(
    pages: Map<Seq<char>, PageModel>,
    uri: Seq<char>,
    seen: Seq<char>,
    contents: Seq<u8>,
)
    requires
        !pages.contains_key(uri),
    ensures
        contents_for(after_lookup(pages, uri), uri, seen) is None,
        is_modified(after_lookup(pages, uri)[uri], contents),
{
    law_token_is_never_blank(contents);
}

/// Every answer is followed by a wait of at least an hour, and of exactly an hour unless the client
/// has sent too many requests and is to stay away for longer: then by a wait of exactly that long.
pub proof fn law_poll_waits_an_hour(
    status: u16,
    headers: Map<Seq<char>, Seq<Seq<u8>>>,
    response_time: int,
)
    ensures
        poll_delay(status, headers, response_time) >= 3600,
        status != 429 ==> poll_delay(status, headers, response_time) == 3600,
        match retry_after(headers, response_time) {
            Some(n) => status == 429 ==> poll_delay(status, headers, response_time) == (if n > 3600 {
                n
            } else {
                3600nat
            }),
            None => poll_delay(status, headers, response_time) == 3600,
        },
{
}

/// A version is the contents that were fetched, all of them, under their token; and fetched contents
/// are a new version exactly if their token is not that of the version before.
pub proof fn law_version_is_what_was_fetched(page: PageModel, contents: Seq<u8>)
    ensures
        version_of(contents).contents == contents,
        version_of(contents).hash == token_of(contents),
        is_modified(page, contents) <==> token_of(contents) != page.hash,
        !is_modified(version_of(contents), contents),
{
}

/// Asking for a page changes nothing but that it is watched: a page that was watched keeps its
/// version, and a new one has the token of eight zeros and no contents.
pub proof fn law_asking_changes_no_version(
    pages: Map<Seq<char>, PageModel>,
    uri: Seq<char>,
    other: Seq<char>,
)
    ensures
        ({
            let after = after_lookup(pages, uri);
            &&& after.contains_key(uri)
            &&& pages.contains_key(uri) ==> after[uri] == pages[uri]
            &&& !pages.contains_key(uri) ==> after[uri].hash == seq![0u8, 0, 0, 0, 0, 0, 0, 0]
                && after[uri].contents.len() == 0
            &&& other != uri ==> after.contains_key(other) == pages.contains_key(other)
            &&& other != uri && pages.contains_key(other) ==> after[other] == pages[other]
        }),
{
}

/// A client gets the contents of the latest version, all of them, exactly if there is a version and
/// its token is not the text that the client has sent.
pub proof fn law_unseen_contents_are_sent(
    pages: Map<Seq<char>, PageModel>,
    uri: Seq<char>,
    page: PageModel,
    seen: Seq<char>,
)
    ensures
        ({
            let sent = contents_for(pages.insert(uri, page), uri, seen);
            let blank = page.hash == seq![0u8, 0, 0, 0, 0, 0, 0, 0];
            &&& !blank && page.hash != encode_utf8(seen) ==> sent == Some(page.contents)
            &&& blank || page.hash == encode_utf8(seen) ==> sent is None
        }),
        contents_for(pages.remove(uri), uri, seen) is None,
{
}

/// The contents of a page are sent whole, with the status 200 and without headers.
pub proof fn law_contents_are_sent_whole(contents: Seq<u8>)
    ensures
        contents_response_spec(contents).status == 200,
        contents_response_spec(contents).headers.len() == 0,
        contents_response_spec(contents).body == contents,
{
}

/// A fetch that brought a new version puts it in the place of the one before; any other fetch, and
/// one that failed, leaves it. No fetch touches another page.
pub proof fn law_fetch_replaces_its_page_alone(
    pages: Map<Seq<char>, PageModel>,
    uri: Seq<char>,
    reply: ReplyModel,
    other: Seq<char>,
)
    requires
        pages.contains_key(uri),
    ensures
        after_event(pages, Event::Fetched { uri, reply: None }) == pages,
        ({
            let after = after_event(pages, Event::Fetched { uri, reply: Some(reply) });
            &&& after.contains_key(uri)
            &&& after[uri].hash == token_of(reply.contents)
            &&& token_of(reply.contents) == pages[uri].hash ==> after[uri] == pages[uri]
            &&& token_of(reply.contents) != pages[uri].hash ==> after[uri].contents
                == reply.contents
            &&& other != uri ==> after.contains_key(other) == pages.contains_key(other)
            &&& other != uri && pages.contains_key(other) ==> after[other] == pages[other]
        }),
{
}

/// A version is what its fields hold.
pub proof fn law_model_is_the_fields(page: Page)
    ensures
        page@.hash == page.hash@,
        page@.contents == page.contents@,
{
}

} // verus!
