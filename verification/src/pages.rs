//! A server that lets its clients wait for a page to change.
//!
//! Clients that ask for the same page share one watcher, so that the page is fetched once for all
//! of them.

use vstd::hash_map::StringHashMap;
use vstd::prelude::*;
use vstd::string::*;
use vstd::utf8::*;

use crate::dates::{on_clock, seconds_between};
use crate::hash::{is_token, is_url_safe, same_bytes, token_of, token_text};
use crate::response::{text_response, text_response_spec, Response, ResponseModel};
use crate::text::{
    ascii_chars, is_ascii_bytes, lemma_ascii_utf8, number_text, text_eq, write_number,
};
use crate::uris::{law_target_leads_back, names_web_page, route, route_spec, target_of, uri_parts};
use crate::watch::{change_time_ok, Page, PageModel};

verus! {

/// The pages that are watched, and the latest version of each, once there is one.
pub struct Pages {
    watching: StringHashMap<Option<Page>>,
}

/// The version in a slot, as the contracts speak of it.
pub open spec fn slot_model(slot: Option<Page>) -> Option<PageModel> {
    match slot {
        Some(page) => Some(page@),
        None => None,
    }
}

impl View for Pages {
    type V = Map<Seq<char>, Option<PageModel>>;

    closed spec fn view(&self) -> Self::V {
        Map::new(
            |uri: Seq<char>| self.watching@.contains_key(uri),
            |uri: Seq<char>| slot_model(self.watching@[uri]),
        )
    }
}

/// What every operation keeps: each version has the token of its contents.
pub open spec fn pages_wf(pages: Map<Seq<char>, Option<PageModel>>) -> bool {
    forall|uri: Seq<char>| #[trigger]
        pages.contains_key(uri) ==> (pages[uri] matches Some(page) ==> page.wf())
}

/// The pages after somebody asked for `uri`.
pub open spec fn after_lookup(
    pages: Map<Seq<char>, Option<PageModel>>,
    uri: Seq<char>,
) -> Map<Seq<char>, Option<PageModel>> {
    if pages.contains_key(uri) {
        pages
    } else {
        pages.insert(uri, None)
    }
}

/// The version of `uri` for a client that has seen `seen`: the latest one, unless there is none or
/// it is the one that the client has seen.
pub open spec fn version_for(
    pages: Map<Seq<char>, Option<PageModel>>,
    uri: Seq<char>,
    seen: Seq<char>,
) -> Option<PageModel> {
    if pages.contains_key(uri) {
        match pages[uri] {
            Some(page) => if page.hash != encode_utf8(seen) {
                Some(page)
            } else {
                None
            },
            None => None,
        }
    } else {
        None
    }
}

/// What a client that waits for a page gets.
pub enum Wait {
    /// The version that the client has not seen.
    Ready(Page),
    /// Nothing yet: ask again after the page has changed. If `start` is set, the page is not
    /// watched yet, and a watcher has to be started for it.
    Pending { start: bool },
}

/// What is to be done with a request.
pub enum Step {
    /// Send this response.
    Reply(Response),
    /// Wait until the page changes, and ask again. If `start` is set, start a watcher for the page.
    Wait { uri: String, start: bool },
}

/// The page that a request asks for and the version that the client has seen.
pub open spec fn wanted(target: Option<Seq<char>>) -> Option<(Seq<char>, Seq<char>)> {
    match route_spec(target) {
        Some((action, uri)) => Some(
            (
                uri,
                if action == "cached"@ {
                    ""@
                } else {
                    action
                },
            ),
        ),
        None => None,
    }
}

/// How many whole seconds ago a version came to be.
pub open spec fn seconds_since_change(page: PageModel, now: int) -> nat {
    match seconds_between(page.last_changed, now) {
        Some(s) => s,
        None => 0,
    }
}

/// The response with a version of a page: it links to where the next version can be waited for.
pub open spec fn page_response_spec(page: PageModel, uri: Seq<char>, now: int) -> ResponseModel {
    ResponseModel {
        status: 200,
        headers: seq![
            ("next-version"@, target_of(ascii_chars(page.hash), uri)),
            ("last-changed"@, number_text(seconds_since_change(page, now), 10)),
        ],
        body: page.contents,
    }
}

/// The response with a version of a page.
pub fn page_response(page: Page, uri: &str, now: i128) -> (r: Response)
    requires
        is_token(page@.hash),
        change_time_ok(page@.last_changed),
        on_clock(now as int),
    ensures
        r@ == page_response_spec(page@, uri@, now as int),
{
    let mut next: String = "/".to_owned();
    next.append(token_text(&page.hash).as_str());
    next.append("/");
    next.append(uri);
    let seconds: u128 = if page.last_changed <= now {
        (now - page.last_changed) as u128 / 1_000_000_000
    } else {
        0
    };
    let mut headers: Vec<(String, String)> = Vec::new();
    headers.push(("next-version".to_owned(), next));
    headers.push(("last-changed".to_owned(), write_number(seconds, 10)));
    let ghost model = page@;
    let r = Response { status: 200, headers, body: page.contents };
    assert(r@.headers =~= page_response_spec(model, uri@, now as int).headers);
    r
}

/// The response to a request that waits for a page whose watcher is gone.
pub fn failure(message: &str) -> (r: Response)
    ensures
        r@ == text_response_spec(500, message@),
{
    text_response(500, message)
}

impl Pages {
    /// No page is watched yet.
    pub fn new() -> (r: Pages)
        ensures
            r@ == Map::<Seq<char>, Option<PageModel>>::empty(),
            pages_wf(r@),
    {
        let r = Pages { watching: StringHashMap::new() };
        assert(r@ =~= Map::<Seq<char>, Option<PageModel>>::empty());
        r
    }

    /// Sees to it that a page is watched. Returns whether a watcher has to be started for it.
    pub fn lookup(&mut self, uri: &str) -> (start: bool)
        ensures
            final(self)@ == after_lookup(old(self)@, uri@),
            start == !old(self)@.contains_key(uri@),
            pages_wf(old(self)@) ==> pages_wf(final(self)@),
    {
        if self.watching.contains_key(uri) {
            false
        } else {
            self.watching.insert(uri.to_owned(), None);
            assert(self@ =~= old(self)@.insert(uri@, None));
            true
        }
    }

    /// Looks for a version of a page that the client has not seen, and sees to it that the page is
    /// watched.
    pub fn wait_for_change(&mut self, uri: &str, seen: &str) -> (r: Wait)
        ensures
            final(self)@ == after_lookup(old(self)@, uri@),
            pages_wf(old(self)@) ==> pages_wf(final(self)@),
            match r {
                Wait::Ready(page) => version_for(old(self)@, uri@, seen@) == Some(page@),
                Wait::Pending { start } => {
                    &&& version_for(old(self)@, uri@, seen@) is None
                    &&& start == !old(self)@.contains_key(uri@)
                },
            },
    {
        let start = self.lookup(uri);
        match self.watching.get(uri) {
            Some(slot) => match slot {
                Some(page) => if !same_bytes(&page.hash, seen.as_bytes()) {
                    return Wait::Ready(page.copy());
                },
                None => {},
            },
            None => {},
        }
        Wait::Pending { start }
    }

    /// Takes in a new version of a page.
    pub fn changed(&mut self, uri: &str, page: Page)
        ensures
            final(self)@ == old(self)@.insert(uri@, Some(page@)),
            pages_wf(old(self)@) && page@.wf() ==> pages_wf(final(self)@),
    {
        let ghost model = page@;
        self.watching.insert(uri.to_owned(), Some(page));
        assert(self@ =~= old(self)@.insert(uri@, Some(model)));
    }

    /// Answers a request, or tells what to wait for. The target is the path and query of its URI.
    pub fn service(&mut self, target: Option<&str>, now: i128) -> (r: Step)
        requires
            pages_wf(old(self)@),
            on_clock(now as int),
        ensures
            pages_wf(final(self)@),
            match wanted(
                match target {
                    Some(t) => Some(t@),
                    None => None,
                },
            ) {
                Some((page_uri, seen)) => {
                    &&& final(self)@ == after_lookup(old(self)@, page_uri)
                    &&& match r {
                        Step::Reply(response) => {
                            &&& version_for(old(self)@, page_uri, seen) is Some
                            &&& response@ == page_response_spec(
                                version_for(old(self)@, page_uri, seen)->0,
                                page_uri,
                                now as int,
                            )
                        },
                        Step::Wait { uri, start } => {
                            &&& version_for(old(self)@, page_uri, seen) is None
                            &&& uri@ == page_uri
                            &&& start == !old(self)@.contains_key(page_uri)
                        },
                    }
                },
                None => {
                    &&& final(self)@ == old(self)@
                    &&& r matches Step::Reply(response)
                    &&& response@ == text_response_spec(404, "not found"@)
                },
            },
    {
        let (action, uri) = match route(target) {
            Some(found) => found,
            None => {
                return Step::Reply(text_response(404, "not found"));
            },
        };
        let seen: &str = if text_eq(action, "cached") {
            ""
        } else {
            action
        };
        match self.wait_for_change(uri, seen) {
            Wait::Ready(page) => Step::Reply(page_response(page, uri, now)),
            Wait::Pending { start } => Step::Wait { uri: uri.to_owned(), start },
        }
    }
}

/// What can happen to the pages: a client asks for one, or a watcher brings a version.
pub enum Event {
    Asked { uri: Seq<char> },
    Changed { uri: Seq<char>, page: PageModel },
}

/// The pages after an event.
pub open spec fn after_event(
    pages: Map<Seq<char>, Option<PageModel>>,
    event: Event,
) -> Map<Seq<char>, Option<PageModel>> {
    match event {
        Event::Asked { uri } => after_lookup(pages, uri),
        Event::Changed { uri, page } => pages.insert(uri, Some(page)),
    }
}

/// The pages after some events, one after the other.
pub open spec fn after_events(
    pages: Map<Seq<char>, Option<PageModel>>,
    events: Seq<Event>,
) -> Map<Seq<char>, Option<PageModel>>
    decreases events.len(),
{
    if events.len() == 0 {
        pages
    } else {
        after_event(after_events(pages, events.drop_last()), events.last())
    }
}

/// Whether asking for a page starts a watcher.
pub open spec fn starts_watcher(
    pages: Map<Seq<char>, Option<PageModel>>,
    uri: Seq<char>,
) -> bool {
    !pages.contains_key(uri)
}

/// However many clients ask for a page, one watcher is started for it: the first request starts it,
/// and no later one starts another, whatever happens in between.
pub proof fn law_one_watcher_per_page(
    pages: Map<Seq<char>, Option<PageModel>>,
    uri: Seq<char>,
    events: Seq<Event>,
)
    ensures
        !starts_watcher(after_events(after_lookup(pages, uri), events), uri),
    decreases events.len(),
{
    if events.len() > 0 {
        law_one_watcher_per_page(pages, uri, events.drop_last());
    }
}

/// A new page gets a watcher, and other pages are not touched by it.
pub proof fn law_new_page_gets_watcher(
    pages: Map<Seq<char>, Option<PageModel>>,
    uri: Seq<char>,
    other: Seq<char>,
)
    requires
        !pages.contains_key(uri),
        other != uri,
    ensures
        starts_watcher(pages, uri),
        starts_watcher(after_lookup(pages, uri), other) == starts_watcher(pages, other),
        pages.contains_key(other) ==> after_lookup(pages, uri)[other] == pages[other],
{
}

/// A client is never given the version that it says it has seen.
pub proof fn law_seen_version_is_not_sent(
    pages: Map<Seq<char>, Option<PageModel>>,
    uri: Seq<char>,
    seen: Seq<char>,
)
    ensures
        version_for(pages, uri, seen) matches Some(page) ==> page.hash != encode_utf8(seen),
{
}

/// A client that has seen nothing gets the latest version, if there is one.
pub proof fn law_cached_version_is_sent(
    pages: Map<Seq<char>, Option<PageModel>>,
    uri: Seq<char>,
    page: PageModel,
)
    requires
        page.wf(),
    ensures
        version_for(pages.insert(uri, Some(page)), uri, ""@) == Some(page),
{
    reveal_strlit("");
    assert(encode_utf8(""@).len() == 0);
}

/// A token is its own text: it holds no slash, and its bytes are those of the text.
pub proof fn lemma_token_text(token: Seq<u8>)
    requires
        is_token(token),
    ensures
        !ascii_chars(token).contains('/'),
        ascii_chars(token) != "cached"@,
        encode_utf8(ascii_chars(token)) == token,
{
    let text = ascii_chars(token);
    assert forall|i: int| 0 <= i < text.len() implies text[i] != '/' by {
        assert(is_url_safe(token[i]));
    }
    reveal_strlit("cached");
    assert(is_ascii_bytes(token)) by {
        assert forall|i: int| 0 <= i < token.len() implies #[trigger] token[i] < 128 by {
            assert(is_url_safe(token[i]));
        }
    }
    lemma_ascii_utf8(token);
}

/// The link to the next version leads to the same page and says that the version it came with has
/// been seen: who follows it waits as long as that version is the latest, and gets the first one
/// with another token.
pub proof fn law_next_version_waits_for_change(
    pages: Map<Seq<char>, Option<PageModel>>,
    uri: Seq<char>,
    page: PageModel,
    next: PageModel,
    now: int,
)
    requires
        page.wf(),
        next.wf(),
        names_web_page(uri_parts(uri)),
        page.hash != next.hash,
    ensures
        ({
            let link = page_response_spec(page, uri, now).headers[0].1;
            let seen = ascii_chars(page.hash);
            &&& wanted(Some(link)) == Some((uri, seen))
            &&& version_for(pages.insert(uri, Some(page)), uri, seen) is None
            &&& version_for(pages.insert(uri, Some(next)), uri, seen) == Some(next)
        }),
{
    lemma_token_text(page.hash);
    law_target_leads_back(ascii_chars(page.hash), uri);
}

/// A client gets the version as it was taken in: with all its contents, whatever their length; so
/// the token in the link to the next version is that of the body.
pub proof fn law_version_is_sent_whole(page: PageModel, uri: Seq<char>, now: int)
    ensures
        ({
            let response = page_response_spec(page, uri, now);
            &&& response.status == 200
            &&& response.body == page.contents
            &&& response.headers.len() == 2
            &&& response.headers[0] == ("next-version"@, "/"@ + ascii_chars(page.hash) + "/"@ + uri)
            &&& response.headers[1].0 == "last-changed"@
            &&& page.wf() ==> response.headers[0].1 == "/"@ + ascii_chars(token_of(response.body))
                + "/"@ + uri
        }),
{
}

/// The time since the change is sent in whole seconds: that many have passed, and not one more.
pub proof fn law_time_since_change_is_sent(page: PageModel, uri: Seq<char>, now: int, seconds: nat)
    requires
        page.last_changed <= now ==> seconds * 1_000_000_000 <= now - page.last_changed < (seconds
            + 1) * 1_000_000_000,
        page.last_changed > now ==> seconds == 0,
    ensures
        page_response_spec(page, uri, now).headers[1].1 == number_text(seconds, 10),
{
}

/// Asking for a page changes nothing but that it is watched: a page that was watched keeps its
/// version, and a new one has none yet.
pub proof fn law_asking_changes_no_version(
    pages: Map<Seq<char>, Option<PageModel>>,
    uri: Seq<char>,
    other: Seq<char>,
)
    ensures
        ({
            let after = after_lookup(pages, uri);
            &&& after.contains_key(uri)
            &&& after[uri] == (if pages.contains_key(uri) {
                pages[uri]
            } else {
                None
            })
            &&& other != uri ==> after.contains_key(other) == pages.contains_key(other)
            &&& other != uri && pages.contains_key(other) ==> after[other] == pages[other]
        }),
{
}

/// A client gets the latest version, whole, exactly if there is one and its token is not the text
/// that the client has sent.
pub proof fn law_unseen_version_is_sent(
    pages: Map<Seq<char>, Option<PageModel>>,
    uri: Seq<char>,
    page: PageModel,
    seen: Seq<char>,
)
    ensures
        page.hash != encode_utf8(seen) ==> version_for(pages.insert(uri, Some(page)), uri, seen)
            == Some(page),
        page.hash == encode_utf8(seen) ==> version_for(
            pages.insert(uri, Some(page)),
            uri,
            seen,
        ) is None,
        version_for(pages.insert(uri, None), uri, seen) is None,
        version_for(pages.remove(uri), uri, seen) is None,
{
}

/// The action `cached` asks for the latest version, whatever it is; any other is the token of the
/// version that the client has. Both ask for the page behind them.
pub proof fn law_action_is_the_version_seen(action: Seq<char>, uri: Seq<char>)
    requires
        !action.contains('/'),
        names_web_page(uri_parts(uri)),
    ensures
        action == "cached"@ ==> wanted(Some("/"@ + action + "/"@ + uri)) == Some((uri, ""@)),
        action != "cached"@ ==> wanted(Some("/"@ + action + "/"@ + uri)) == Some((uri, action)),
{
    law_target_leads_back(action, uri);
}

/// A target that asks for a page has the form `/action/uri` and names a page that the web has; any
/// other asks for none.
pub proof fn law_only_routes_are_wanted(target: Option<Seq<char>>)
    ensures
        wanted(target) is Some <==> route_spec(target) is Some,
        wanted(target) matches Some((uri, _)) ==> uri == (route_spec(target)->0).1,
{
}

} // verus!
