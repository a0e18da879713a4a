//! A server that has pages announced by their hubs instead of asking for them again and again.
//!
//! A page is fetched once. As soon as a client waits for its next version, a subscription is
//! requested from the hub that the page names; from then on the hub brings the new versions.

use trillium::Headers;
use vstd::hash_map::StringHashMap;
use vstd::prelude::*;
use vstd::slice::*;
use vstd::string::*;
use vstd::utf8::*;

use rand::RngExt;

use crate::dates::{on_clock, NANOS};
use crate::hash::{
    blank_token, is_token, law_token_is_never_blank, same_bytes, token_from_text,
    token_from_text_spec, token_of, token_text, ContentHash,
};
use crate::intent::{intent_spec, read_intent, Intent, IntentModel};
use crate::links::{
    header_texts, page_fetched, page_from_fetch, page_in_message, Fetched, Page, PageModel,
};
use crate::pages::lemma_token_text;
use crate::response::{text_response, text_response_spec, Response, ResponseModel};
use crate::text::{ascii_chars, number_text, write_number};
use crate::uris::text_model;
use crate::urls::{
    ends_with, form_pairs, parse_form, query_of, subscription_pairs, subscription_request,
    subscription_request_spec,
};

verus! {

/// The subscription to one page.
struct Subscription {
    url: String,
    // the name under which the hub calls back, once a subscription was requested
    id: Option<String>,
    // when the subscription ends, on the wall clock, if the hub has confirmed it
    lease_expires: Option<i128>,
    page: Page,
}

/// A subscription, as the contracts speak of it.
#[verifier::ext_equal]
pub struct SubscriptionModel {
    pub id: Option<Seq<char>>,
    pub lease_expires: Option<int>,
    pub page: PageModel,
}

impl Subscription {
    spec fn model(self) -> SubscriptionModel {
        SubscriptionModel {
            id: text_model(self.id),
            lease_expires: match self.lease_expires {
                Some(t) => Some(t as int),
                None => None,
            },
            page: self.page@,
        }
    }
}

/// All subscriptions, by the URLs of their pages and by the names under which hubs call back.
pub struct Subscriptions {
    by_url: StringHashMap<usize>,
    by_id: StringHashMap<usize>,
    all: Vec<Subscription>,
}

/// All subscriptions, as the contracts speak of them: by URL, and the URL for each callback name.
#[verifier::ext_equal]
pub struct HubModel {
    pub subs: Map<Seq<char>, SubscriptionModel>,
    pub ids: Map<Seq<char>, Seq<char>>,
}

impl HubModel {
    /// What every operation keeps: a callback name belongs to the subscription that bears it, and
    /// to no other; a subscription without a name has no lease; and each version of a page has the
    /// token of its content.
    pub open spec fn wf(self) -> bool {
        &&& forall|id: Seq<char>| #[trigger]
            self.ids.contains_key(id) ==> self.subs.contains_key(self.ids[id])
                && self.subs[self.ids[id]].id == Some(id)
        &&& forall|url: Seq<char>| #[trigger]
            self.subs.contains_key(url) ==> (self.subs[url].id matches Some(id)
                ==> self.ids.contains_key(id) && self.ids[id] == url)
        &&& forall|url: Seq<char>| #[trigger]
            self.subs.contains_key(url) ==> (self.subs[url].id is None
                ==> self.subs[url].lease_expires is None)
        &&& forall|url: Seq<char>| #[trigger]
            self.subs.contains_key(url) ==> self.subs[url].page.wf()
    }
}

impl View for Subscriptions {
    type V = HubModel;

    closed spec fn view(&self) -> HubModel {
        HubModel {
            subs: Map::new(
                |url: Seq<char>| self.by_url@.contains_key(url),
                |url: Seq<char>| self.all@[self.by_url@[url] as int].model(),
            ),
            ids: Map::new(
                |id: Seq<char>| self.by_id@.contains_key(id),
                |id: Seq<char>| self.all@[self.by_id@[id] as int].url@,
            ),
        }
    }
}

/// A subscription to a page that was never asked for before.
pub open spec fn new_subscription() -> SubscriptionModel {
    SubscriptionModel { id: None, lease_expires: None, page: PageModel::Pending }
}

/// The subscriptions after somebody asked for the page `url`.
pub open spec fn after_by_url(hub: HubModel, url: Seq<char>) -> HubModel {
    if hub.subs.contains_key(url) {
        hub
    } else {
        HubModel { subs: hub.subs.insert(url, new_subscription()), ..hub }
    }
}

/// Whether a subscription has to be requested, for the first time or anew.
pub open spec fn needs_request(sub: SubscriptionModel, now: int) -> bool {
    sub.id is None || (sub.lease_expires matches Some(expires) && expires <= now)
}

/// The callback name of a subscription: the one that it has, or else the fresh number in
/// hexadecimal notation.
pub open spec fn callback_name(sub: SubscriptionModel, fresh: u128) -> Seq<char> {
    match sub.id {
        Some(id) => id,
        None => number_text(fresh as nat, 16),
    }
}

/// Whether the fresh number is needed but is already the callback name of another subscription.
pub open spec fn name_is_taken(hub: HubModel, url: Seq<char>, fresh: u128) -> bool {
    hub.subs[url].id is None && hub.ids.contains_key(number_text(fresh as nat, 16))
}

/// The subscriptions after `url` was given its callback name.
pub open spec fn after_naming(hub: HubModel, url: Seq<char>, fresh: u128) -> HubModel {
    let id = callback_name(hub.subs[url], fresh);
    HubModel {
        subs: hub.subs.insert(url, SubscriptionModel { id: Some(id), ..hub.subs[url] }),
        ids: hub.ids.insert(id, url),
    }
}

/// The URL under which a hub calls back.
pub open spec fn callback_url(base_url: Seq<char>, id: Seq<char>) -> Seq<char> {
    base_url + "/notify/"@ + id
}

/// What is to be done about the subscription to a page.
pub enum Request {
    /// Nothing: it lasts, or is not needed.
    Idle,
    /// Request it, with this URL to call back.
    Send { callback: String },
    /// Nothing can be requested: the fresh number is the name of another subscription.
    NameTaken,
}

/// What is to be done when a client waits for a page.
pub struct Opened {
    /// Whether the page has to be fetched.
    pub fetch: bool,
    /// What is to be done about its subscription.
    pub request: Request,
    /// The version that the client has seen.
    pub expected: ContentHash,
}

/// Whether a request says what is to be done about the subscription to `url`.
pub open spec fn is_request_for(
    request: Request,
    hub: HubModel,
    url: Seq<char>,
    base_url: Seq<char>,
    now: int,
    fresh: u128,
) -> bool {
    match request {
        Request::Idle => !needs_request(hub.subs[url], now),
        Request::Send { callback } => {
            &&& needs_request(hub.subs[url], now)
            &&& !name_is_taken(hub, url, fresh)
            &&& callback@ == callback_url(base_url, callback_name(hub.subs[url], fresh))
        },
        Request::NameTaken => needs_request(hub.subs[url], now) && name_is_taken(hub, url, fresh),
    }
}

/// The subscriptions after [`Subscriptions::ensure_subscription`].
pub open spec fn after_ensuring(hub: HubModel, url: Seq<char>, now: int, fresh: u128) -> HubModel {
    if needs_request(hub.subs[url], now) && !name_is_taken(hub, url, fresh) {
        after_naming(hub, url, fresh)
    } else {
        hub
    }
}

/// The subscriptions after a client began to wait for a page.
pub open spec fn after_opening(
    hub: HubModel,
    url: Seq<char>,
    hash: Option<Seq<char>>,
    now: int,
    fresh: u128,
) -> HubModel {
    let known = after_by_url(hub, url);
    if token_from_text_spec(hash) == blank_token() {
        known
    } else {
        after_ensuring(known, url, now, fresh)
    }
}

/// Whether [`Opened`] says what is to be done.
pub open spec fn is_opening_of(
    opened: Opened,
    hub: HubModel,
    url: Seq<char>,
    hash: Option<Seq<char>>,
    base_url: Seq<char>,
    now: int,
    fresh: u128,
) -> bool {
    &&& opened.fetch == !hub.subs.contains_key(url)
    &&& opened.expected@ == token_from_text_spec(hash)
    &&& if token_from_text_spec(hash) == blank_token() {
        opened.request is Idle
    } else {
        is_request_for(opened.request, after_by_url(hub, url), url, base_url, now, fresh)
    }
}

/// The subscriptions after the page `url` became `page`.
pub open spec fn after_page(hub: HubModel, url: Seq<char>, page: PageModel) -> HubModel {
    HubModel { subs: hub.subs.insert(url, SubscriptionModel { page, ..hub.subs[url] }), ..hub }
}

/// The subscriptions after a hub called the callback name `id` with an intent.
pub open spec fn after_intent(
    hub: HubModel,
    id: Seq<char>,
    intent: IntentModel,
    now: int,
) -> HubModel {
    let url = hub.ids[id];
    match intent {
        IntentModel::Subscribe { lease_seconds, .. } => HubModel {
            subs: hub.subs.insert(
                url,
                SubscriptionModel {
                    lease_expires: Some(now + lease_seconds * NANOS),
                    ..hub.subs[url]
                },
            ),
            ..hub
        },
        IntentModel::Unsubscribe { .. } => HubModel {
            subs: hub.subs.insert(
                url,
                SubscriptionModel { id: None, lease_expires: None, ..hub.subs[url] },
            ),
            ids: hub.ids.remove(id),
        },
        _ => hub,
    }
}

/// What a hub that calls to verify a subscription is answered.
pub enum Answer {
    /// Nothing: no such subscription, or a call that does not concern it.
    Unhandled,
    /// This response.
    Respond(Response),
    /// Nothing: the hub turned the subscription down, and nothing is prepared for that.
    Denied,
}

/// The response that echoes a challenge.
pub open spec fn challenge_response_spec(challenge: Seq<char>) -> ResponseModel {
    ResponseModel {
        status: 200,
        headers: seq![
            ("content-type"@, "application/octet-stream"@),
            ("x-content-type-options"@, "nosniff"@),
        ],
        body: encode_utf8(challenge),
    }
}

/// Whether an answer is the one to an intent.
pub open spec fn is_answer_to(answer: Answer, intent: IntentModel) -> bool {
    match intent {
        IntentModel::Unrelated => answer is Unhandled,
        IntentModel::BadLease => answer matches Answer::Respond(response) && response@
            == text_response_spec(500, ""@),
        IntentModel::Subscribe { challenge, .. } => answer matches Answer::Respond(response)
            && response@ == challenge_response_spec(challenge),
        IntentModel::Unsubscribe { challenge } => answer matches Answer::Respond(response)
            && response@ == challenge_response_spec(challenge),
        IntentModel::Denied => answer is Denied,
    }
}

/// The response that echoes a challenge.
pub fn challenge_response(challenge: &str) -> (r: Response)
    ensures
        r@ == challenge_response_spec(challenge@),
{
    let mut headers: Vec<(String, String)> = Vec::new();
    headers.push(("content-type".to_owned(), "application/octet-stream".to_owned()));
    headers.push(("x-content-type-options".to_owned(), "nosniff".to_owned()));
    let r = Response { status: 200, headers, body: challenge.as_bytes_vec() };
    assert(r@ =~= challenge_response_spec(challenge@));
    r
}

/// The scheme and host under which a client reached this server, as a URL.
pub open spec fn base_url_spec(secure: bool, host: Seq<char>) -> Seq<char> {
    (if secure {
        "https"@
    } else {
        "http"@
    }) + "://"@ + host
}

/// The scheme and host under which a client reached this server, as a URL.
pub fn base_url(secure: bool, host: &str) -> (r: String)
    ensures
        r@ == base_url_spec(secure, host@),
{
    let mut url: String = if secure {
        "https".to_owned()
    } else {
        "http".to_owned()
    };
    url.append("://");
    url.append(host);
    url
}

/// What a client that has the version `expected` gets: an error, a version that it does not have,
/// or nothing yet.
pub open spec fn reply_spec(
    page: PageModel,
    expected: Seq<u8>,
    base_url: Seq<char>,
    url: Seq<char>,
) -> Option<ResponseModel> {
    match page {
        PageModel::Pending => None,
        PageModel::Failed { message } => Some(
            text_response_spec(
                502,
                "something went wrong fetching the page you asked for: "@ + message,
            ),
        ),
        PageModel::Ready { hub, content_type, content, hash } => if hash != expected {
            Some(
                ResponseModel {
                    status: 200,
                    headers: seq![
                        ("next-version"@, base_url + "/"@ + ascii_chars(hash) + "/"@ + url),
                        ("content-type"@, content_type),
                    ],
                    body: content,
                },
            )
        } else {
            None
        },
    }
}

/// Works out what a client that has the version `expected` gets.
pub fn reply(page: &Page, expected: &ContentHash, base_url: &str, url: &str) -> (r: Option<
    Response,
>)
    requires
        page@ matches PageModel::Ready { hash, .. } ==> is_token(hash),
    ensures
        (match r {
            Some(response) => Some(response@),
            None => None,
        }) == reply_spec(page@, expected@, base_url@, url@),
{
    match page {
        Page::Pending => None,
        Page::Failed(message) => {
            let mut text: String =
                "something went wrong fetching the page you asked for: ".to_owned();
            text.append(message.as_str());
            Some(text_response(502, text.as_str()))
        },
        Page::Ready { hub, content_type, content, hash } => {
            if same_bytes(hash, expected.as_slice()) {
                return None;
            }
            let mut next: String = base_url.to_owned();
            next.append("/");
            next.append(token_text(hash).as_str());
            next.append("/");
            next.append(url);
            let mut headers: Vec<(String, String)> = Vec::new();
            headers.push(("next-version".to_owned(), next));
            headers.push(("content-type".to_owned(), content_type.clone()));
            let response = Response {
                status: 200,
                headers,
                body: slice_to_vec(content.as_slice()),
            };
            assert(response@ =~= reply_spec(page@, expected@, base_url@, url@)->0);
            Some(response)
        },
    }
}

/// What a request for a subscription waits for, or where it goes.
pub enum HubStep {
    /// The page is not there yet: wait until it changes.
    Wait,
    /// The page could not be fetched, so it names no hub.
    Stop,
    /// Send the request to this URL.
    Post { url: String },
    /// The page, or its hub, has no URL that a request can go to.
    NoUrl,
}

/// Whether a step is the next one of a request for a subscription to the page `url`.
pub open spec fn is_hub_step(
    step: HubStep,
    page: PageModel,
    url: Seq<char>,
    callback: Seq<char>,
) -> bool {
    match step {
        HubStep::Wait => page is Pending,
        HubStep::Stop => page is Failed,
        HubStep::Post { url: target } => page matches PageModel::Ready { hub, .. }
            && subscription_request_spec(url, hub, callback) == Some(target@) && ends_with(
            form_pairs(query_of(target@)),
            subscription_pairs(url, callback),
        ),
        HubStep::NoUrl => page matches PageModel::Ready { hub, .. }
            && subscription_request_spec(url, hub, callback) is None,
    }
}

/// Works out where the request for a subscription to the page `url` goes.
pub fn hub_step(page: &Page, url: &str, callback: &str) -> (r: HubStep)
    ensures
        is_hub_step(r, page@, url@, callback@),
{
    match page {
        Page::Pending => HubStep::Wait,
        Page::Failed(_) => HubStep::Stop,
        Page::Ready { hub, .. } => match subscription_request(url, hub.as_str(), callback) {
            Some(target) => HubStep::Post { url: target },
            None => HubStep::NoUrl,
        },
    }
}

/// Calls `RngExt::random` of the generator that `rand::rng` returns: some number.
#[verifier::external_body]
fn random_number() -> (r: u128) {
    rand::rng().random::<u128>()
}

impl Subscriptions {
    /// What the collections keep: they lead to the subscriptions that bear the URL or the name.
    closed spec fn consistent(&self) -> bool {
        &&& forall|url: Seq<char>| #[trigger]
            self.by_url@.contains_key(url) ==> self.by_url@[url] < self.all@.len()
                && self.all@[self.by_url@[url] as int].url@ == url
        &&& forall|i: int|
            0 <= i < self.all@.len() ==> self.by_url@.contains_key(
                (#[trigger] self.all@[i]).url@,
            ) && self.by_url@[self.all@[i].url@] == i
        &&& forall|id: Seq<char>| #[trigger]
            self.by_id@.contains_key(id) ==> self.by_id@[id] < self.all@.len()
    }

    /// Whether the subscriptions are well formed.
    pub closed spec fn wf(&self) -> bool {
        self.consistent() && self@.wf()
    }

    /// A well formed value has a well formed model.
    pub proof fn lemma_wf(&self)
        requires
            self.wf(),
        ensures
            self@.wf(),
    {
    }

    /// There are no subscriptions yet.
    pub fn new() -> (r: Subscriptions)
        ensures
            r.wf(),
            r@.subs == Map::<Seq<char>, SubscriptionModel>::empty(),
            r@.ids == Map::<Seq<char>, Seq<char>>::empty(),
    {
        let r = Subscriptions {
            by_url: StringHashMap::new(),
            by_id: StringHashMap::new(),
            all: Vec::new(),
        };
        assert(r@.subs =~= Map::<Seq<char>, SubscriptionModel>::empty());
        assert(r@.ids =~= Map::<Seq<char>, Seq<char>>::empty());
        r
    }

    /// Sees to it that there is a subscription for a page. Returns whether it is new, and the page
    /// has to be fetched.
    pub fn by_url(&mut self, url: &str) -> (fetch: bool)
        requires
            old(self).wf(),
        ensures
            final(self).wf(),
            final(self)@ == after_by_url(old(self)@, url@),
            fetch == !old(self)@.subs.contains_key(url@),
    {
        if self.by_url.contains_key(url) {
            return false;
        }
        let n: usize = self.all.len();
        self.all.push(
            Subscription {
                url: url.to_owned(),
                id: None,
                lease_expires: None,
                page: Page::Pending,
            },
        );
        self.by_url.insert(url.to_owned(), n);
        proof {
            let before = old(self)@;
            let after = after_by_url(before, url@);
            assert(self@.subs =~= after.subs);
            assert(self@.ids =~= after.ids);
        }
        true
    }

    /// The page whose subscription has this callback name.
    pub fn by_id(&self, id: &str) -> (r: Option<String>)
        requires
            self.wf(),
        ensures
            match r {
                Some(url) => self@.ids.contains_key(id@) && self@.ids[id@] == url@,
                None => !self@.ids.contains_key(id@),
            },
    {
        match self.by_id.get(id) {
            Some(i) => Some(self.all[*i].url.clone()),
            None => None,
        }
    }

    /// Puts a page in the place of the one that the subscription has.
    fn set_page(&mut self, i: usize, page: Page)
        requires
            old(self).wf(),
            i < old(self).all@.len(),
            page@.wf(),
        ensures
            final(self).wf(),
            final(self)@ == after_page(old(self)@, old(self).all@[i as int].url@, page@),
            old(self)@.subs.contains_key(old(self).all@[i as int].url@),
    {
        let ghost before = self@;
        let ghost url = self.all@[i as int].url@;
        let ghost model = page@;
        self.all[i].page = page;
        proof {
            let after = after_page(before, url, model);
            assert(self@.subs =~= after.subs);
            assert(self@.ids =~= after.ids);
        }
    }

    /// Takes in what came of fetching a page.
    pub fn fetched(&mut self, url: &str, fetched: Fetched)
        requires
            old(self).wf(),
            old(self)@.subs.contains_key(url@),
        ensures
            final(self).wf(),
            final(self)@ == after_page(old(self)@, url@, page_fetched(fetched)),
    {
        let page = page_from_fetch(fetched);
        match self.by_url.get(url) {
            Some(i) => {
                let n: usize = *i;
                self.set_page(n, page);
            },
            None => {},
        }
    }

    /// Takes in a version that a hub brings to a callback name.
    pub fn notify(&mut self, id: &str, content: Vec<u8>, headers: &Headers) -> (r: Response)
        requires
            old(self).wf(),
        ensures
            final(self).wf(),
            if old(self)@.ids.contains_key(id@) {
                &&& r@ == text_response_spec(200, ""@)
                &&& final(self)@ == after_page(
                    old(self)@,
                    old(self)@.ids[id@],
                    page_in_message(content@, header_texts(*headers)),
                )
            } else {
                &&& r@ == text_response_spec(410, ""@)
                &&& final(self)@ == old(self)@
            },
    {
        match self.by_id.get(id) {
            Some(i) => {
                let n: usize = *i;
                self.set_page(n, Page::from_http(content, headers));
                text_response(200, "")
            },
            None => text_response(410, ""),
        }
    }

    /// Sees to it that a subscription to a page lasts. A subscription without a callback name gets
    /// the number `fresh`, in hexadecimal notation.
    pub fn ensure_subscription(&mut self, url: &str, base_url: &str, now: i128, fresh: u128) -> (r:
        Request)
        requires
            old(self).wf(),
            old(self)@.subs.contains_key(url@),
        ensures
            final(self).wf(),
            final(self)@ == after_ensuring(old(self)@, url@, now as int, fresh),
            is_request_for(r, old(self)@, url@, base_url@, now as int, fresh),
    {
        let i: usize = match self.by_url.get(url) {
            Some(i) => *i,
            None => {
                return Request::Idle;
            },
        };
        let lasts: bool = match self.all[i].lease_expires {
            Some(expires) => expires > now,
            None => true,
        };
        let known: Option<String> = match &self.all[i].id {
            Some(id) => Some(id.clone()),
            None => None,
        };
        let id: String = match known {
            Some(id) => {
                if lasts {
                    return Request::Idle;
                }
                proof {
                    let after = after_naming(self@, url@, fresh);
                    assert(self@.subs =~= after.subs);
                    assert(self@.ids =~= after.ids);
                }
                id
            },
            None => {
                let id = write_number(fresh, 16);
                if self.by_id.contains_key(id.as_str()) {
                    return Request::NameTaken;
                }
                self.add_id(i, id.clone());
                id
            },
        };
        let mut callback: String = base_url.to_owned();
        callback.append("/notify/");
        callback.append(id.as_str());
        Request::Send { callback }
    }

    /// Gives a subscription a callback name that is not in use.
    fn add_id(&mut self, i: usize, id: String)
        requires
            old(self).wf(),
            i < old(self).all@.len(),
            old(self).all@[i as int].id is None,
            !old(self)@.ids.contains_key(id@),
        ensures
            final(self).wf(),
            final(self)@.subs == old(self)@.subs.insert(
                old(self).all@[i as int].url@,
                SubscriptionModel { id: Some(id@), ..old(self).all@[i as int].model() },
            ),
            final(self)@.ids == old(self)@.ids.insert(id@, old(self).all@[i as int].url@),
    {
        let ghost before = self@;
        let ghost sub = self.all@[i as int];
        self.by_id.insert(id.clone(), i);
        self.all[i].id = Some(id);
        proof {
            assert(self@.subs =~= before.subs.insert(
                sub.url@,
                SubscriptionModel { id: Some(id@), ..sub.model() },
            ));
            assert(self@.ids =~= before.ids.insert(id@, sub.url@));
        }
    }

    /// Works through the call of a hub that verifies a subscription. `query` is the query string of
    /// the call and `now` is read on the wall clock.
    pub fn verify_intent(&mut self, id: &str, query: &str, now: i128) -> (r: Answer)
        requires
            old(self).wf(),
            on_clock(now as int),
        ensures
            final(self).wf(),
            if old(self)@.ids.contains_key(id@) {
                let intent = intent_spec(form_pairs(query@), old(self)@.ids[id@]);
                &&& is_answer_to(r, intent)
                &&& final(self)@ == after_intent(old(self)@, id@, intent, now as int)
            } else {
                &&& r is Unhandled
                &&& final(self)@ == old(self)@
            },
    {
        let url = match self.by_id(id) {
            Some(url) => url,
            None => {
                return Answer::Unhandled;
            },
        };
        let intent = read_intent(&parse_form(query), url.as_str());
        self.apply_intent(id, intent, now)
    }

    /// Does what a hub wants.
    pub fn apply_intent(&mut self, id: &str, intent: Intent, now: i128) -> (r: Answer)
        requires
            old(self).wf(),
            old(self)@.ids.contains_key(id@),
            on_clock(now as int),
        ensures
            final(self).wf(),
            is_answer_to(r, intent@),
            final(self)@ == after_intent(old(self)@, id@, intent@, now as int),
    {
        let ghost before = self@;
        let i: usize = match self.by_id.get(id) {
            Some(i) => *i,
            None => {
                return Answer::Unhandled;
            },
        };
        let ghost url = self.all@[i as int].url@;
        match intent {
            Intent::Unrelated => Answer::Unhandled,
            Intent::BadLease => Answer::Respond(text_response(500, "")),
            Intent::Denied => Answer::Denied,
            Intent::Subscribe { challenge, lease_seconds } => {
                let expires: i128 = now + lease_seconds as i128 * NANOS;
                self.all[i].lease_expires = Some(expires);
                proof {
                    let after = after_intent(before, id@, intent@, now as int);
                    assert(self@.subs =~= after.subs);
                    assert(self@.ids =~= after.ids);
                }
                Answer::Respond(challenge_response(challenge.as_str()))
            },
            Intent::Unsubscribe { challenge } => {
                self.by_id.remove(id);
                self.all[i].id = None;
                self.all[i].lease_expires = None;
                proof {
                    let after = after_intent(before, id@, intent@, now as int);
                    assert(self@.subs =~= after.subs);
                    assert(self@.ids =~= after.ids);
                }
                Answer::Respond(challenge_response(challenge.as_str()))
            },
        }
    }

    /// Begins to wait for a page on behalf of a client. `hash` is the text with which the client
    /// names the version that it has, if it does, and `fresh` a number that can name a subscription.
    pub fn open(
        &mut self,
        url: &str,
        hash: Option<&str>,
        base_url: &str,
        now: i128,
        fresh: u128,
    ) -> (r: Opened)
        requires
            old(self).wf(),
        ensures
            final(self).wf(),
            final(self)@ == after_opening(old(self)@, url@, str_model(hash), now as int, fresh),
            is_opening_of(r, old(self)@, url@, str_model(hash), base_url@, now as int, fresh),
            final(self)@.subs.contains_key(url@),
    {
        let expected = token_from_text(hash);
        let blank: ContentHash = [0u8; 8];
        assert(blank@ =~= blank_token());
        let fetch = self.by_url(url);
        let request = if same_bytes(&expected, blank.as_slice()) {
            Request::Idle
        } else {
            self.ensure_subscription(url, base_url, now, fresh)
        };
        Opened { fetch, request, expected }
    }

    /// Begins to wait for a page on behalf of a client, with a random number to name a subscription
    /// that has no name yet.
    pub fn wait_for_hash_change(
        &mut self,
        url: &str,
        hash: Option<&str>,
        base_url: &str,
        now: i128,
    ) -> (r: Opened)
        requires
            old(self).wf(),
        ensures
            final(self).wf(),
            final(self)@.subs.contains_key(url@),
            exists|fresh: u128|
                {
                    &&& final(self)@ == after_opening(
                        old(self)@,
                        url@,
                        str_model(hash),
                        now as int,
                        fresh,
                    )
                    &&& #[trigger] is_opening_of(
                        r,
                        old(self)@,
                        url@,
                        str_model(hash),
                        base_url@,
                        now as int,
                        fresh,
                    )
                },
    {
        let fresh: u128 = random_number();
        self.open(url, hash, base_url, now, fresh)
    }

    /// What a client that waits for a page, and has the version `expected`, gets by now.
    pub fn reply_for(&self, url: &str, expected: &ContentHash, base_url: &str) -> (r: Option<
        Response,
    >)
        requires
            self.wf(),
            self@.subs.contains_key(url@),
        ensures
            (match r {
                Some(response) => Some(response@),
                None => None,
            }) == reply_spec(self@.subs[url@].page, expected@, base_url@, url@),
    {
        match self.by_url.get(url) {
            Some(i) => reply(&self.all[*i].page, expected, base_url, url),
            None => None,
        }
    }

    /// Where the request for a subscription to a page goes by now.
    pub fn hub_step_for(&self, url: &str, callback: &str) -> (r: HubStep)
        requires
            self.wf(),
            self@.subs.contains_key(url@),
        ensures
            is_hub_step(r, self@.subs[url@].page, url@, callback@),
    {
        match self.by_url.get(url) {
            Some(i) => hub_step(&self.all[*i].page, url, callback),
            None => HubStep::Stop,
        }
    }
}

/// Optional text, as the contracts speak of it.
pub open spec fn str_model(text: Option<&str>) -> Option<Seq<char>> {
    match text {
        Some(t) => Some(t@),
        None => None,
    }
}

/// What can happen to the subscriptions: a client waits for a page, a page becomes another, or a hub
/// calls.
pub enum Event {
    Opened { url: Seq<char>, hash: Option<Seq<char>>, now: int, fresh: u128 },
    Changed { url: Seq<char>, page: PageModel },
    Called { id: Seq<char>, intent: IntentModel, now: int },
}

/// The subscriptions after an event.
pub open spec fn after_event(hub: HubModel, event: Event) -> HubModel {
    match event {
        Event::Opened { url, hash, now, fresh } => after_opening(hub, url, hash, now, fresh),
        Event::Changed { url, page } => after_page(hub, url, page),
        Event::Called { id, intent, now } => after_intent(hub, id, intent, now),
    }
}

/// The subscriptions after some events, one after the other.
pub open spec fn after_events(hub: HubModel, events: Seq<Event>) -> HubModel
    decreases events.len(),
{
    if events.len() == 0 {
        hub
    } else {
        after_event(after_events(hub, events.drop_last()), events.last())
    }
}

/// Whether an event can happen: only a page that somebody waited for becomes another, to a version
/// with its own token, and only a hub that knows the callback name is listened to.
pub open spec fn can_happen(hub: HubModel, event: Event) -> bool {
    match event {
        Event::Opened { .. } => true,
        Event::Changed { url, page } => hub.subs.contains_key(url) && page.wf(),
        Event::Called { id, .. } => hub.ids.contains_key(id),
    }
}

/// Whether some events can happen one after the other.
pub open spec fn can_all_happen(hub: HubModel, events: Seq<Event>) -> bool
    decreases events.len(),
{
    events.len() == 0 || (can_all_happen(hub, events.drop_last()) && can_happen(
        after_events(hub, events.drop_last()),
        events.last(),
    ))
}

/// Whatever happens, each callback name leads to the one subscription that bears it, only a
/// subscription with a name has a lease, and each version of a page has the token of its content.
pub proof fn law_subscriptions_stay_consistent(hub: HubModel, events: Seq<Event>)
    requires
        hub.wf(),
        can_all_happen(hub, events),
    ensures
        after_events(hub, events).wf(),
    decreases events.len(),
{
    if events.len() > 0 {
        law_subscriptions_stay_consistent(hub, events.drop_last());
    }
}

/// A page is fetched for the first client that waits for it, and for no later one, whatever happens
/// in between.
pub proof fn law_page_is_fetched_once(hub: HubModel, url: Seq<char>, events: Seq<Event>)
    ensures
        after_events(after_by_url(hub, url), events).subs.contains_key(url),
    decreases events.len(),
{
    if events.len() > 0 {
        law_page_is_fetched_once(hub, url, events.drop_last());
    }
}

/// No subscription is requested for a client that names no version: it does not wait for the next
/// one.
pub proof fn law_no_subscription_for_cached_page(
    opened: Opened,
    hub: HubModel,
    url: Seq<char>,
    hash: Option<Seq<char>>,
    base_url: Seq<char>,
    now: int,
    fresh: u128,
)
    requires
        token_from_text_spec(hash) == blank_token(),
        is_opening_of(opened, hub, url, hash, base_url, now, fresh),
    ensures
        opened.request is Idle,
        after_opening(hub, url, hash, now, fresh) == after_by_url(hub, url),
{
}

/// No two pages have the same callback name, so a hub cannot bring one page in the name of another.
pub proof fn law_callback_names_are_distinct(hub: HubModel, url: Seq<char>, other: Seq<char>)
    requires
        hub.wf(),
        hub.subs.contains_key(url),
        hub.subs.contains_key(other),
        url != other,
        hub.subs[url].id is Some,
    ensures
        hub.subs[other].id != hub.subs[url].id,
{
}

/// A subscription lasts until its lease ends: no request is sent before that. Then one is sent, and
/// the subscription keeps its callback name.
pub proof fn law_lease_decides_about_renewal(
    hub: HubModel,
    id: Seq<char>,
    challenge: Seq<char>,
    lease_seconds: u64,
    confirmed: int,
    now: int,
    fresh: u128,
)
    requires
        hub.wf(),
        hub.ids.contains_key(id),
    ensures
        ({
            let intent = IntentModel::Subscribe { challenge, lease_seconds };
            let after = after_intent(hub, id, intent, confirmed);
            let sub = after.subs[hub.ids[id]];
            &&& needs_request(sub, now) <==> confirmed + lease_seconds * NANOS <= now
            &&& callback_name(sub, fresh) == id
        }),
{
}

/// A subscription that was requested but not confirmed yet is not requested again.
pub proof fn law_pending_subscription_is_not_requested_again(
    hub: HubModel,
    url: Seq<char>,
    now: int,
    later: int,
    fresh: u128,
)
    requires
        hub.wf(),
        hub.subs.contains_key(url),
        hub.subs[url].id is None,
        !name_is_taken(hub, url, fresh),
    ensures
        !needs_request(after_ensuring(hub, url, now, fresh).subs[url], later),
{
}

/// The callback name that goes out with a request for a subscription leads to the page that was
/// waited for.
pub proof fn law_requested_name_leads_to_page(
    hub: HubModel,
    url: Seq<char>,
    now: int,
    fresh: u128,
)
    requires
        hub.wf(),
        hub.subs.contains_key(url),
        needs_request(hub.subs[url], now),
        !name_is_taken(hub, url, fresh),
    ensures
        ({
            let named = after_ensuring(hub, url, now, fresh);
            let id = callback_name(hub.subs[url], fresh);
            named.ids.contains_key(id) && named.ids[id] == url
        }),
{
}

/// What a hub brings to a callback name reaches the clients that wait for its page, unless they have
/// that version already, and touches no other page.
pub proof fn law_notification_reaches_waiting_clients(
    hub: HubModel,
    id: Seq<char>,
    content: Seq<u8>,
    headers: Map<Seq<char>, Seq<Option<Seq<char>>>>,
    expected: Seq<u8>,
    base_url: Seq<char>,
    other: Seq<char>,
)
    requires
        hub.wf(),
        hub.ids.contains_key(id),
        token_of(content) != expected,
    ensures
        ({
            let url = hub.ids[id];
            let told = after_page(hub, url, page_in_message(content, headers));
            &&& reply_spec(told.subs[url].page, expected, base_url, url) matches Some(response)
                && response.status == 200 && response.body == content
            &&& hub.subs.contains_key(other) && other != url ==> told.subs[other]
                == hub.subs[other]
        }),
{
}

/// After the end of a subscription was confirmed, its callback name is unknown: the hub is told so,
/// and the next client that waits for a new version has the subscription requested anew.
pub proof fn law_ended_subscription_is_forgotten(
    hub: HubModel,
    id: Seq<char>,
    challenge: Seq<char>,
    now: int,
    later: int,
)
    requires
        hub.wf(),
        hub.ids.contains_key(id),
    ensures
        ({
            let after = after_intent(hub, id, IntentModel::Unsubscribe { challenge }, now);
            &&& !after.ids.contains_key(id)
            &&& needs_request(after.subs[hub.ids[id]], later)
            &&& after.subs[hub.ids[id]].page == hub.subs[hub.ids[id]].page
        }),
{
}

/// The link to the next version names the version that it came with: who follows it does not get
/// that version again, and has it seen to that a subscription lasts.
pub proof fn law_next_version_names_this_one(
    hub: HubModel,
    url: Seq<char>,
    content: Seq<u8>,
    headers: Map<Seq<char>, Seq<Option<Seq<char>>>>,
    expected: Seq<u8>,
    base_url: Seq<char>,
    now: int,
    fresh: u128,
)
    requires
        is_token(token_of(content)),
        token_of(content) != expected,
    ensures
        ({
            let page = page_in_message(content, headers);
            let named = ascii_chars(token_of(content));
            let seen = token_from_text_spec(Some(named));
            &&& reply_spec(page, expected, base_url, url) matches Some(response)
                && response.headers[0] == ("next-version"@, base_url + "/"@ + named + "/"@ + url)
            &&& reply_spec(page, seen, base_url, url) is None
            &&& after_opening(hub, url, Some(named), now, fresh) == after_ensuring(
                after_by_url(hub, url),
                url,
                now,
                fresh,
            )
        }),
{
    lemma_token_text(token_of(content));
    law_token_is_never_blank(content);
}

/// A subscription for a page that nobody asked for before has no name, no lease and no page yet; one
/// that is there stays as it is. No other subscription is touched, and no callback name.
pub proof fn law_asking_changes_no_subscription(
    hub: HubModel,
    url: Seq<char>,
    other: Seq<char>,
)
    ensures
        ({
            let after = after_by_url(hub, url);
            &&& after.subs.contains_key(url)
            &&& hub.subs.contains_key(url) ==> after.subs[url] == hub.subs[url]
            &&& !hub.subs.contains_key(url) ==> {
                &&& after.subs[url].id is None
                &&& after.subs[url].lease_expires is None
                &&& after.subs[url].page is Pending
            }
            &&& other != url ==> after.subs.contains_key(other) == hub.subs.contains_key(other)
            &&& other != url && hub.subs.contains_key(other) ==> after.subs[other]
                == hub.subs[other]
            &&& after.ids == hub.ids
        }),
{
}

/// A subscription is requested exactly if it has no callback name, or a lease that has ended.
pub proof fn law_request_is_due(sub: SubscriptionModel, now: int)
    ensures
        sub.id is None ==> needs_request(sub, now),
        sub.id is Some && sub.lease_expires is None ==> !needs_request(sub, now),
        sub.id is Some ==> (sub.lease_expires matches Some(expires) ==> (needs_request(sub, now)
            <==> now >= expires)),
{
}

/// A subscription keeps the callback name that it has, and else gets the fresh number in hexadecimal
/// notation; and the hub calls back under that name, below `/notify/`.
pub proof fn law_callback_carries_the_name(
    sub: SubscriptionModel,
    fresh: u128,
    base_url: Seq<char>,
)
    ensures
        sub.id matches Some(id) ==> callback_name(sub, fresh) == id,
        sub.id is None ==> callback_name(sub, fresh) == number_text(fresh as nat, 16),
        callback_url(base_url, callback_name(sub, fresh)) == base_url + "/notify/"@ + callback_name(
            sub,
            fresh,
        ),
{
}

/// A fresh number is taken only if the subscription needs a name and another one has that number.
pub proof fn law_name_is_taken_by_another(hub: HubModel, url: Seq<char>, fresh: u128)
    requires
        hub.wf(),
        hub.subs.contains_key(url),
    ensures
        name_is_taken(hub, url, fresh) <==> hub.subs[url].id is None && hub.ids.contains_key(
            number_text(fresh as nat, 16),
        ),
        name_is_taken(hub, url, fresh) ==> hub.ids[number_text(fresh as nat, 16)] != url,
{
}

/// Seeing to it that a subscription lasts gives it its callback name, if a request is due and the name
/// is free, and changes nothing else: not its lease, not its page, and no other subscription.
pub proof fn law_ensuring_only_names(
    hub: HubModel,
    url: Seq<char>,
    now: int,
    fresh: u128,
    other: Seq<char>,
    id: Seq<char>,
)
    requires
        hub.wf(),
        hub.subs.contains_key(url),
    ensures
        ({
            let after = after_ensuring(hub, url, now, fresh);
            let name = callback_name(hub.subs[url], fresh);
            &&& !needs_request(hub.subs[url], now) || name_is_taken(hub, url, fresh) ==> after == hub
            &&& needs_request(hub.subs[url], now) && !name_is_taken(hub, url, fresh) ==> {
                &&& after.subs[url].id == Some(name)
                &&& after.ids.contains_key(name) && after.ids[name] == url
            }
            &&& after.subs.contains_key(url)
            &&& after.subs[url].lease_expires == hub.subs[url].lease_expires
            &&& after.subs[url].page == hub.subs[url].page
            &&& other != url ==> after.subs.contains_key(other) == hub.subs.contains_key(other)
            &&& other != url && hub.subs.contains_key(other) ==> after.subs[other]
                == hub.subs[other]
            &&& id != name ==> after.ids.contains_key(id) == hub.ids.contains_key(id)
            &&& hub.ids.contains_key(id) ==> after.ids[id] == hub.ids[id]
        }),
{
}

/// A request goes out exactly if one is due and the name is free, with the callback URL of the
/// subscription; if the name is taken, nothing goes out; and if none is due, nothing is to be done.
pub proof fn law_due_request_goes_out(
    request: Request,
    hub: HubModel,
    url: Seq<char>,
    base_url: Seq<char>,
    now: int,
    fresh: u128,
)
    requires
        is_request_for(request, hub, url, base_url, now, fresh),
    ensures
        !needs_request(hub.subs[url], now) ==> request is Idle,
        needs_request(hub.subs[url], now) && name_is_taken(hub, url, fresh) ==> request is NameTaken,
        needs_request(hub.subs[url], now) && !name_is_taken(hub, url, fresh) ==> (request matches
            Request::Send { callback } && callback@ == base_url + "/notify/"@ + callback_name(
            hub.subs[url],
            fresh,
        )),
{
}

/// A client that begins to wait has the page fetched exactly if nobody asked for it before, and is
/// remembered by the version that it names. If it names one, it is seen to that a subscription lasts;
/// if it names none, the subscriptions stay as asking for the page leaves them.
pub proof fn law_waiting_begins_with_a_fetch(
    opened: Opened,
    hub: HubModel,
    url: Seq<char>,
    hash: Option<Seq<char>>,
    base_url: Seq<char>,
    now: int,
    fresh: u128,
)
    requires
        is_opening_of(opened, hub, url, hash, base_url, now, fresh),
    ensures
        opened.fetch <==> !hub.subs.contains_key(url),
        opened.expected@ == token_from_text_spec(hash),
        token_from_text_spec(hash) == seq![0u8, 0, 0, 0, 0, 0, 0, 0] ==> opened.request is Idle
            && after_opening(hub, url, hash, now, fresh) == after_by_url(hub, url),
        token_from_text_spec(hash) != seq![0u8, 0, 0, 0, 0, 0, 0, 0] ==> is_request_for(
            opened.request,
            after_by_url(hub, url),
            url,
            base_url,
            now,
            fresh,
        ) && after_opening(hub, url, hash, now, fresh) == after_ensuring(
            after_by_url(hub, url),
            url,
            now,
            fresh,
        ),
{
}

/// A page that becomes another does so whole, and changes nothing else: not its name, not its lease,
/// and no other subscription.
pub proof fn law_page_is_taken_in_whole(
    hub: HubModel,
    url: Seq<char>,
    page: PageModel,
    other: Seq<char>,
)
    ensures
        ({
            let after = after_page(hub, url, page);
            &&& after.subs.contains_key(url)
            &&& after.subs[url].page == page
            &&& after.subs[url].id == hub.subs[url].id
            &&& after.subs[url].lease_expires == hub.subs[url].lease_expires
            &&& other != url ==> after.subs.contains_key(other) == hub.subs.contains_key(other)
            &&& other != url && hub.subs.contains_key(other) ==> after.subs[other]
                == hub.subs[other]
            &&& after.ids == hub.ids
        }),
{
}

/// The call of a hub changes the subscription that bears the name, and no other: a confirmed one gets
/// its lease, counted from now, and an ended one loses its name and its lease. Neither changes the
/// page, and no other call changes anything.
pub proof fn law_call_changes_its_subscription_alone(
    hub: HubModel,
    id: Seq<char>,
    intent: IntentModel,
    now: int,
    other: Seq<char>,
    name: Seq<char>,
)
    requires
        hub.wf(),
        hub.ids.contains_key(id),
    ensures
        ({
            let url = hub.ids[id];
            let after = after_intent(hub, id, intent, now);
            &&& intent matches IntentModel::Subscribe { lease_seconds, .. } ==> {
                &&& after.subs[url].lease_expires == Some(now + lease_seconds * 1_000_000_000)
                &&& after.subs[url].id == Some(id)
                &&& after.ids == hub.ids
            }
            &&& intent is Unsubscribe ==> {
                &&& after.subs[url].lease_expires is None
                &&& after.subs[url].id is None
                &&& !after.ids.contains_key(id)
            }
            &&& !(intent is Subscribe) && !(intent is Unsubscribe) ==> after == hub
            &&& after.subs.contains_key(url)
            &&& after.subs[url].page == hub.subs[url].page
            &&& other != url ==> after.subs.contains_key(other) == hub.subs.contains_key(other)
            &&& other != url && hub.subs.contains_key(other) ==> after.subs[other]
                == hub.subs[other]
            &&& name != id ==> after.ids.contains_key(name) == hub.ids.contains_key(name)
            &&& name != id && hub.ids.contains_key(name) ==> after.ids[name] == hub.ids[name]
        }),
{
}

/// A hub that confirms something is answered with its challenge, whole, as bytes that nobody is to
/// take for anything else; a lease that is no number is an error, and nothing else is answered.
pub proof fn law_challenge_is_echoed(answer: Answer, intent: IntentModel)
    requires
        is_answer_to(answer, intent),
    ensures
        intent is Subscribe || intent is Unsubscribe ==> ({
            let challenge = match intent {
                IntentModel::Subscribe { challenge, .. } => challenge,
                IntentModel::Unsubscribe { challenge } => challenge,
                _ => Seq::empty(),
            };
            answer matches Answer::Respond(response) && {
                &&& response@.status == 200
                &&& response@.body == encode_utf8(challenge)
                &&& response@.headers == seq![
                    ("content-type"@, "application/octet-stream"@),
                    ("x-content-type-options"@, "nosniff"@),
                ]
            }
        }),
        intent is BadLease ==> (answer matches Answer::Respond(response) && {
            &&& response@.status == 500
            &&& response@.body == encode_utf8(""@)
            &&& response@.headers.len() == 0
        }),
        intent is Denied <==> answer is Denied,
        intent is Unrelated <==> answer is Unhandled,
{
}

/// A server is reached under `https://` or `http://`, as the connection is secure or not, and its
/// host.
pub proof fn law_base_url_has_scheme_and_host(host: Seq<char>)
    ensures
        base_url_spec(true, host) == "https"@ + "://"@ + host,
        base_url_spec(false, host) == "http"@ + "://"@ + host,
{
}

/// A client gets the latest version, whole and with its type, exactly if that has another token than
/// the version that the client has; of a page that could not be fetched it gets the reason; and of one
/// that is being fetched nothing yet.
pub proof fn law_client_gets_what_it_lacks(
    page: PageModel,
    expected: Seq<u8>,
    base_url: Seq<char>,
    url: Seq<char>,
)
    ensures
        ({
            let sent = reply_spec(page, expected, base_url, url);
            match page {
                PageModel::Pending => sent is None,
                PageModel::Failed { message } => sent matches Some(response) && {
                    &&& response.status == 502
                    &&& response.headers.len() == 0
                    &&& response.body == encode_utf8(
                        "something went wrong fetching the page you asked for: "@ + message,
                    )
                },
                PageModel::Ready { content_type, content, hash, .. } => {
                    &&& hash == expected ==> sent is None
                    &&& hash != expected ==> (sent matches Some(response) && {
                        &&& response.status == 200
                        &&& response.body == content
                        &&& response.headers == seq![
                            ("next-version"@, base_url + "/"@ + ascii_chars(hash) + "/"@ + url),
                            ("content-type"@, content_type),
                        ]
                    })
                },
            }
        }),
{
}

/// A request for a subscription waits for the page, stops if there is none, and else goes to the hub
/// that the page names, with what is wanted in its query, if there is a URL for it.
pub proof fn law_request_follows_the_page(
    step: HubStep,
    page: PageModel,
    url: Seq<char>,
    callback: Seq<char>,
)
    requires
        is_hub_step(step, page, url, callback),
    ensures
        match page {
            PageModel::Pending => step is Wait,
            PageModel::Failed { .. } => step is Stop,
            PageModel::Ready { hub, .. } => match subscription_request_spec(url, hub, callback) {
                Some(target) => step matches HubStep::Post { url: sent } && sent@ == target
                    && ends_with(
                    form_pairs(query_of(target)),
                    seq![
                        ("hub.callback"@, callback),
                        ("hub.mode"@, "subscribe"@),
                        ("hub.topic"@, url),
                    ],
                ),
                None => step is NoUrl,
            },
        },
{
    assert(subscription_pairs(url, callback) =~= seq![
        ("hub.callback"@, callback),
        ("hub.mode"@, "subscribe"@),
        ("hub.topic"@, url),
    ]);
}

/// A text that may be missing is what it holds.
pub proof fn law_text_is_what_it_holds(text: &str)
    ensures
        str_model(Some(text)) == Some(text@),
        str_model(None) is None,
{
}

} // verus!
