//! Pages that come with a hub: what a response says of its content, and where it says that changes
//! are announced.

use trillium::Headers;
use vstd::prelude::*;
use vstd::string::*;

use crate::hash::{content_hash, is_token, token_of, ContentHash};
use crate::headers::is_header_key;
use crate::text::text_eq;
use crate::uris::text_model;

verus! {

/// `trillium::Headers`, whose contents are named by [`header_texts`].
#[verifier::external_type_specification]
#[verifier::external_body]
pub struct ExHeaders(trillium::Headers);

/// What a header collection holds: for each name, in lower case, its values in the order in which
/// they were received; a value that is not UTF-8 is none.
pub uninterp spec fn header_texts(headers: trillium::Headers) -> Map<
    Seq<char>,
    Seq<Option<Seq<char>>>,
>;

/// All values under a name.
pub open spec fn texts_under(
    contents: Map<Seq<char>, Seq<Option<Seq<char>>>>,
    name: Seq<char>,
) -> Seq<Option<Seq<char>>> {
    if contents.contains_key(name) {
        contents[name]
    } else {
        Seq::empty()
    }
}

/// The value under a name, if there is exactly one and it is text.
pub open spec fn single_text(
    contents: Map<Seq<char>, Seq<Option<Seq<char>>>>,
    name: Seq<char>,
) -> Option<Seq<char>> {
    let values = texts_under(contents, name);
    if values.len() == 1 {
        values[0]
    } else {
        None
    }
}

/// Calls `Headers::get_str`: the value under a name, if there is exactly one and it is text.
#[verifier::external_body]
fn get_str(headers: &Headers, name: &str) -> (r: Option<String>)
    requires
        is_header_key(name@),
    ensures
        text_model(r) == single_text(header_texts(*headers), name@),
{
    headers.get_str(name).map(str::to_owned)
}

/// Calls `Headers::get_values`: every value under a name, in the order of the collection.
#[verifier::external_body]
fn get_values(headers: &Headers, name: &str) -> (r: Vec<Option<String>>)
    requires
        is_header_key(name@),
    ensures
        r@.map_values(|value: Option<String>| text_model(value)) == texts_under(
            header_texts(*headers),
            name@,
        ),
{
    match headers.get_values(name) {
        Some(values) => values.iter().map(|value| value.as_str().map(str::to_owned)).collect(),
        None => Vec::new(),
    }
}

/// A parameter of a link.
pub struct LinkParam {
    pub key: String,
    pub val: Option<String>,
}

/// One link of a `link` header.
pub struct Link {
    pub url: String,
    pub params: Vec<LinkParam>,
}

impl View for LinkParam {
    type V = (Seq<char>, Option<Seq<char>>);

    open spec fn view(&self) -> Self::V {
        (self.key@, text_model(self.val))
    }
}

impl View for Link {
    type V = (Seq<char>, Seq<(Seq<char>, Option<Seq<char>>)>);

    open spec fn view(&self) -> Self::V {
        (self.url@, self.params@.map_values(|param: LinkParam| param@))
    }
}

/// The links of a header, as the contracts speak of them.
pub open spec fn links_model(links: Seq<Option<Link>>) -> Seq<
    Option<(Seq<char>, Seq<(Seq<char>, Option<Seq<char>>)>)>,
> {
    links.map_values(
        |link: Option<Link>|
            match link {
                Some(l) => Some(l@),
                None => None,
            },
    )
}

/// The links that a `link` header value lists, each with its parameters, if the value is well
/// formed; an empty element of the list is none.
pub uninterp spec fn link_header(text: Seq<char>) -> Option<
    Seq<Option<(Seq<char>, Seq<(Seq<char>, Option<Seq<char>>)>)>>,
>;

/// Calls `nom_rfc8288::complete::link_lenient`. Whether the value is well formed, and which links it
/// lists, depends on the text alone and is named by [`link_header`].
#[verifier::external_body]
fn parse_links(text: &str) -> (r: Option<Vec<Option<Link>>>)
    ensures
        match r {
            Some(links) => link_header(text@) == Some(links_model(links@)),
            None => link_header(text@) is None,
        },
{
    let parsed = nom_rfc8288::complete::link_lenient(text).ok()?;
    let param = |p: &nom_rfc8288::complete::LinkParam<'_>| LinkParam {
        key: p.key.to_owned(),
        val: p.val.clone(),
    };
    let link = |l: &nom_rfc8288::complete::LinkData<'_>| Link {
        url: l.url.to_owned(),
        params: l.params.iter().map(param).collect(),
    };
    Some(parsed.iter().map(|l| l.as_ref().map(link)).collect())
}

/// The relation of a link: the value of its first `rel` parameter that has one.
pub open spec fn relation(params: Seq<(Seq<char>, Option<Seq<char>>)>) -> Option<Seq<char>>
    decreases params.len(),
{
    if params.len() == 0 {
        None
    } else if params[0].0 == "rel"@ && params[0].1 is Some {
        params[0].1
    } else {
        relation(params.skip(1))
    }
}

/// The hub that a list of links names: the target of the first link with the relation `hub`.
pub open spec fn hub_among(
    links: Seq<Option<(Seq<char>, Seq<(Seq<char>, Option<Seq<char>>)>)>>,
) -> Option<Seq<char>>
    decreases links.len(),
{
    if links.len() == 0 {
        None
    } else {
        match links[0] {
            Some(link) => if relation(link.1) == Some("hub"@) {
                Some(link.0)
            } else {
                hub_among(links.skip(1))
            },
            None => hub_among(links.skip(1)),
        }
    }
}

/// The hub that one `link` header value names, if it is well formed text.
pub open spec fn hub_in_value(value: Option<Seq<char>>) -> Option<Seq<char>> {
    match value {
        Some(text) => match link_header(text) {
            Some(links) => hub_among(links),
            None => None,
        },
        None => None,
    }
}

/// The hub of a page: the one that the last `link` header value with a hub names, or none, which is
/// the empty text.
pub open spec fn hub_of(values: Seq<Option<Seq<char>>>) -> Seq<char>
    decreases values.len(),
{
    if values.len() == 0 {
        Seq::empty()
    } else {
        match hub_in_value(values.last()) {
            Some(hub) => hub,
            None => hub_of(values.drop_last()),
        }
    }
}

fn is_hub(params: &Vec<LinkParam>) -> (r: bool)
    ensures
        r == (relation(params@.map_values(|param: LinkParam| param@)) == Some("hub"@)),
{
    let ghost all = params@.map_values(|param: LinkParam| param@);
    let mut i: usize = 0;
    assert(all.skip(0) =~= all);
    while i < params.len()
        invariant
            i <= params@.len(),
            all == params@.map_values(|param: LinkParam| param@),
            relation(all) == relation(all.skip(i as int)),
        decreases params@.len() - i,
    {
        let ghost left = all.skip(i as int);
        assert(left[0] == params@[i as int]@);
        assert(left.skip(1) =~= all.skip(i + 1));
        if text_eq(params[i].key.as_str(), "rel") {
            match &params[i].val {
                Some(value) => {
                    return text_eq(value.as_str(), "hub");
                },
                None => {},
            }
        }
        i = i + 1;
    }
    assert(all.skip(i as int) =~= Seq::<(Seq<char>, Option<Seq<char>>)>::empty());
    false
}

/// Finds the hub that a list of links names.
pub fn find_hub(links: &Vec<Option<Link>>) -> (r: Option<String>)
    ensures
        text_model(r) == hub_among(links_model(links@)),
{
    let ghost all = links_model(links@);
    let mut i: usize = 0;
    assert(all.skip(0) =~= all);
    while i < links.len()
        invariant
            i <= links@.len(),
            all == links_model(links@),
            hub_among(all) == hub_among(all.skip(i as int)),
        decreases links@.len() - i,
    {
        let ghost left = all.skip(i as int);
        assert(left.skip(1) =~= all.skip(i + 1));
        match &links[i] {
            Some(link) => {
                assert(left[0] == Some(link@));
                if is_hub(&link.params) {
                    return Some(link.url.clone());
                }
            },
            None => {
                assert(left[0] is None);
            },
        }
        i = i + 1;
    }
    assert(all.skip(i as int) =~= Seq::<
        Option<(Seq<char>, Seq<(Seq<char>, Option<Seq<char>>)>)>,
    >::empty());
    None
}

/// Finds the hub of a page among the values of its `link` headers.
pub fn find_page_hub(values: &Vec<Option<String>>) -> (r: String)
    ensures
        r@ == hub_of(values@.map_values(|value: Option<String>| text_model(value))),
{
    let ghost all = values@.map_values(|value: Option<String>| text_model(value));
    let mut hub: String = String::new();
    let mut i: usize = 0;
    while i < values.len()
        invariant
            i <= values@.len(),
            all == values@.map_values(|value: Option<String>| text_model(value)),
            hub@ == hub_of(all.take(i as int)),
        decreases values@.len() - i,
    {
        let ghost seen = all.take(i + 1);
        assert(seen.drop_last() =~= all.take(i as int));
        assert(seen.last() == text_model(values@[i as int]));
        match &values[i] {
            Some(text) => match parse_links(text.as_str()) {
                Some(links) => match find_hub(&links) {
                    Some(found) => {
                        hub = found;
                    },
                    None => {},
                },
                None => {},
            },
            None => {},
        }
        i = i + 1;
    }
    assert(all.take(i as int) =~= all);
    hub
}

/// A page that is fetched once and then kept up to date by its hub.
pub enum Page {
    /// It has not been fetched yet.
    Pending,
    /// It could not be fetched, for this reason.
    Failed(String),
    /// Its latest version.
    Ready { hub: String, content_type: String, content: Vec<u8>, hash: ContentHash },
}

/// A page, as the contracts speak of it.
#[verifier::ext_equal]
pub enum PageModel {
    Pending,
    Failed { message: Seq<char> },
    Ready { hub: Seq<char>, content_type: Seq<char>, content: Seq<u8>, hash: Seq<u8> },
}

impl View for Page {
    type V = PageModel;

    open spec fn view(&self) -> PageModel {
        match *self {
            Page::Pending => PageModel::Pending,
            Page::Failed(message) => PageModel::Failed { message: message@ },
            Page::Ready { hub, content_type, content, hash } => PageModel::Ready {
                hub: hub@,
                content_type: content_type@,
                content: content@,
                hash: hash@,
            },
        }
    }
}

impl PageModel {
    /// Whether the token of a version belongs to its content.
    pub open spec fn wf(self) -> bool {
        self matches PageModel::Ready { content, hash, .. } ==> hash == token_of(content)
            && is_token(hash)
    }
}

/// The version that a message with this content and these headers brings.
pub open spec fn page_in_message(
    content: Seq<u8>,
    headers: Map<Seq<char>, Seq<Option<Seq<char>>>>,
) -> PageModel {
    PageModel::Ready {
        hub: hub_of(texts_under(headers, "link"@)),
        content_type: match single_text(headers, "content-type"@) {
            Some(text) => text,
            None => Seq::empty(),
        },
        content,
        hash: token_of(content),
    }
}

impl Page {
    /// Reads a version of a page from a message.
    pub fn from_http(content: Vec<u8>, headers: &Headers) -> (r: Page)
        ensures
            r@ == page_in_message(content@, header_texts(*headers)),
            r@.wf(),
    {
        proof {
            reveal_strlit("content-type");
            reveal_strlit("link");
        }
        let content_type = match get_str(headers, "content-type") {
            Some(text) => text,
            None => String::new(),
        };
        let hash = content_hash(content.as_slice());
        let hub = find_page_hub(&get_values(headers, "link"));
        Page::Ready { hub, content_type, content, hash }
    }
}

/// What came of fetching a page.
pub enum Fetched {
    /// There was no answer, for this reason.
    Unreachable(String),
    /// There was an answer. The body is looked at only if the status is 200, and can fail to arrive.
    Answered { status: u16, status_text: String, headers: Headers, body: Result<Vec<u8>, String> },
}

/// The page after it was fetched.
pub open spec fn page_fetched(fetched: Fetched) -> PageModel {
    match fetched {
        Fetched::Unreachable(reason) => PageModel::Failed { message: reason@ },
        Fetched::Answered { status, status_text, headers, body } => if status == 200 {
            match body {
                Ok(content) => page_in_message(content@, header_texts(headers)),
                Err(reason) => PageModel::Failed { message: reason@ },
            }
        } else {
            PageModel::Failed { message: "got status "@ + status_text@ }
        },
    }
}

/// Works out what a page is after it was fetched.
pub fn page_from_fetch(fetched: Fetched) -> (r: Page)
    ensures
        r@ == page_fetched(fetched),
        r@.wf(),
{
    match fetched {
        Fetched::Unreachable(reason) => Page::Failed(reason),
        Fetched::Answered { status, status_text, headers, body } => {
            if status == 200 {
                match body {
                    Ok(content) => Page::from_http(content, &headers),
                    Err(reason) => Page::Failed(reason),
                }
            } else {
                let mut message: String = "got status ".to_owned();
                message.append(status_text.as_str());
                Page::Failed(message)
            }
        },
    }
}

/// The values under a name are those that were received, all of them; text is taken from a single
/// value alone.
pub proof fn law_single_value_is_taken(
    contents: Map<Seq<char>, Seq<Option<Seq<char>>>>,
    name: Seq<char>,
    values: Seq<Option<Seq<char>>>,
)
    ensures
        texts_under(contents.insert(name, values), name) == values,
        texts_under(contents.remove(name), name).len() == 0,
        values.len() == 1 ==> single_text(contents.insert(name, values), name) == values[0],
        values.len() != 1 ==> single_text(contents.insert(name, values), name) is None,
        single_text(contents.remove(name), name) is None,
{
}

/// The relation of a link is the value of the first `rel` parameter that has one, wherever that
/// stands and whatever follows it.
pub proof fn law_first_rel_is_the_relation(
    params: Seq<(Seq<char>, Option<Seq<char>>)>,
    i: int,
)
    requires
        0 <= i < params.len(),
        params[i].0 == "rel"@,
        params[i].1 is Some,
        forall|j: int| 0 <= j < i ==> (#[trigger] params[j]).0 != "rel"@ || params[j].1 is None,
    ensures
        relation(params) == params[i].1,
    decreases i,
{
    if i > 0 {
        let rest = params.skip(1);
        assert(params[0].0 != "rel"@ || params[0].1 is None);
        assert forall|j: int| 0 <= j < i - 1 implies (#[trigger] rest[j]).0 != "rel"@
            || rest[j].1 is None by {
            assert(rest[j] == params[j + 1]);
        }
        assert(rest[i - 1] == params[i]);
        law_first_rel_is_the_relation(rest, i - 1);
    }
}

/// A link without a `rel` parameter that has a value has no relation.
pub proof fn law_no_rel_no_relation(params: Seq<(Seq<char>, Option<Seq<char>>)>)
    requires
        forall|j: int|
            0 <= j < params.len() ==> (#[trigger] params[j]).0 != "rel"@ || params[j].1 is None,
    ensures
        relation(params) is None,
    decreases params.len(),
{
    if params.len() > 0 {
        let rest = params.skip(1);
        assert(params[0].0 != "rel"@ || params[0].1 is None);
        assert forall|j: int| 0 <= j < rest.len() implies (#[trigger] rest[j]).0 != "rel"@
            || rest[j].1 is None by {
            assert(rest[j] == params[j + 1]);
        }
        law_no_rel_no_relation(rest);
    }
}

/// Whether an element of a list of links is a link with the relation `hub`.
pub open spec fn links_to_hub(
    link: Option<(Seq<char>, Seq<(Seq<char>, Option<Seq<char>>)>)>,
) -> bool {
    link matches Some((_, params)) && relation(params) == Some("hub"@)
}

/// The hub of a list of links is the target of the first link with that relation, wherever it stands
/// and whatever follows it.
pub proof fn law_first_hub_link_counts(
    links: Seq<Option<(Seq<char>, Seq<(Seq<char>, Option<Seq<char>>)>)>>,
    i: int,
)
    requires
        0 <= i < links.len(),
        links[i] is Some,
        relation((links[i]->0).1) == Some("hub"@),
        forall|j: int|
            0 <= j < i ==> ((#[trigger] links[j]) matches Some((_, params)) ==> relation(params)
                != Some("hub"@)),
    ensures
        hub_among(links) == Some((links[i]->0).0),
    decreases i,
{
    if i > 0 {
        let rest = links.skip(1);
        assert(links[0] matches Some((_, params)) ==> relation(params) != Some("hub"@));
        assert forall|j: int| 0 <= j < i - 1 implies ((#[trigger] rest[j]) matches Some((_, params))
            ==> relation(params) != Some("hub"@)) by {
            assert(rest[j] == links[j + 1]);
        }
        assert(rest[i - 1] == links[i]);
        law_first_hub_link_counts(rest, i - 1);
    }
}

/// A list of links names no hub only if no link in it has that relation.
pub proof fn law_no_hub_link_no_hub(
    links: Seq<Option<(Seq<char>, Seq<(Seq<char>, Option<Seq<char>>)>)>>,
)
    ensures
        hub_among(links) is None <==> forall|j: int|
            0 <= j < links.len() ==> ((#[trigger] links[j]) matches Some((_, params)) ==> relation(
                params,
            ) != Some("hub"@)),
    decreases links.len(),
{
    if links.len() > 0 {
        let rest = links.skip(1);
        law_no_hub_link_no_hub(rest);
        assert(links[0] matches Some((_, params)) ==> (relation(params) == Some("hub"@)
            ==> hub_among(links) is Some));
        if hub_among(links) is None {
            assert forall|j: int| 0 <= j < links.len() implies ((#[trigger] links[j]) matches Some(
                (_, params),
            ) ==> relation(params) != Some("hub"@)) by {
                if j > 0 {
                    assert(rest[j - 1] == links[j]);
                }
            }
        } else if hub_among(rest) is Some {
            assert(exists|j: int| 0 <= j < rest.len() && links_to_hub(#[trigger] rest[j]));
            let j = choose|j: int| 0 <= j < rest.len() && links_to_hub(#[trigger] rest[j]);
            assert(links[j + 1] == rest[j]);
        }
    }
}

/// A `link` header value names the hub that its links name, if it is well formed text, and else none.
pub proof fn law_value_names_hub_of_its_links(text: Seq<char>)
    ensures
        hub_in_value(None) is None,
        link_header(text) is None ==> hub_in_value(Some(text)) is None,
        link_header(text) matches Some(links) ==> hub_in_value(Some(text)) == hub_among(links),
{
}

/// Of several `link` header values the last that names a hub decides, wherever it stands and whatever
/// stands before it.
pub proof fn law_last_hub_counts(values: Seq<Option<Seq<char>>>, i: int)
    requires
        0 <= i < values.len(),
        hub_in_value(values[i]) is Some,
        forall|j: int| i < j < values.len() ==> hub_in_value(#[trigger] values[j]) is None,
    ensures
        hub_of(values) == hub_in_value(values[i])->0,
    decreases values.len(),
{
    if i < values.len() - 1 {
        assert(hub_in_value(values[values.len() - 1]) is None);
        law_last_hub_counts(values.drop_last(), i);
    }
}

/// If no `link` header value names a hub, the hub is the empty text.
pub proof fn law_no_value_no_hub(values: Seq<Option<Seq<char>>>)
    requires
        forall|j: int| 0 <= j < values.len() ==> hub_in_value(#[trigger] values[j]) is None,
    ensures
        hub_of(values).len() == 0,
    decreases values.len(),
{
    if values.len() > 0 {
        assert(hub_in_value(values[values.len() - 1]) is None);
        law_no_value_no_hub(values.drop_last());
    }
}

/// A message brings its whole content, under the token of that, with the hub that its `link` headers
/// name and the type that its only `content-type` header gives, if there is one.
pub proof fn law_message_brings_its_content(
    content: Seq<u8>,
    headers: Map<Seq<char>, Seq<Option<Seq<char>>>>,
)
    ensures
        page_in_message(content, headers) matches PageModel::Ready {
            hub,
            content_type,
            content: kept,
            hash,
        } && {
            &&& kept == content
            &&& hash == token_of(content)
            &&& hub == hub_of(texts_under(headers, "link"@))
            &&& single_text(headers, "content-type"@) matches Some(text) ==> content_type == text
            &&& single_text(headers, "content-type"@) is None ==> content_type.len() == 0
        },
{
}

/// A fetch with the status 200 brings the page in its answer, if its body arrived; any other fails,
/// for the reason that the network or the status gives.
pub proof fn law_only_ok_brings_page(fetched: Fetched)
    ensures
        match fetched {
            Fetched::Unreachable(reason) => page_fetched(fetched) == (PageModel::Failed {
                message: reason@,
            }),
            Fetched::Answered { status, status_text, headers, body } => {
                &&& status != 200 ==> page_fetched(fetched) == (PageModel::Failed {
                    message: "got status "@ + status_text@,
                })
                &&& status == 200 ==> match body {
                    Ok(content) => page_fetched(fetched) == page_in_message(
                        content@,
                        header_texts(headers),
                    ),
                    Err(reason) => page_fetched(fetched) == (PageModel::Failed { message: reason@ }),
                }
            },
        },
{
}



/// Links, their parameters and pages are what they hold, in order.
pub proof fn law_models_are_the_fields(
    links: Seq<Option<Link>>,
    link: Link,
    param: LinkParam,
    page: Page,
)
    ensures
        param@ == (param.key@, text_model(param.val)),
        link@.0 == link.url@,
        link@.1.len() == link.params@.len(),
        forall|i: int| 0 <= i < link.params@.len() ==> #[trigger] link@.1[i] == link.params@[i]@,
        links_model(links).len() == links.len(),
        forall|i: int|
            0 <= i < links.len() ==> #[trigger] links_model(links)[i] == (match links[i] {
                Some(l) => Some(l@),
                None => None,
            }),
        match page {
            Page::Pending => page@ is Pending,
            Page::Failed(message) => page@ == (PageModel::Failed { message: message@ }),
            Page::Ready { hub, content_type, content, hash } => page@ == (PageModel::Ready {
                hub: hub@,
                content_type: content_type@,
                content: content@,
                hash: hash@,
            }),
        },
{
}

} // verus!
