//! Request targets: which page a request asks for, and which version of it the client has.

use vstd::prelude::*;
use vstd::string::*;

use crate::text::{
    law_split_once_loses_nothing, lemma_split_once_at, split_once, split_once_spec, text_eq,
};

verus! {

/// The parts of a URI that decide whether it names a web page.
pub struct UriParts {
    pub scheme: Option<String>,
    pub authority: Option<String>,
    pub path_and_query: Option<String>,
}

/// Optional text, as the contracts speak of it.
pub open spec fn text_model(text: Option<String>) -> Option<Seq<char>> {
    match text {
        Some(t) => Some(t@),
        None => None,
    }
}

impl View for UriParts {
    type V = (Option<Seq<char>>, Option<Seq<char>>, Option<Seq<char>>);

    open spec fn view(&self) -> Self::V {
        (text_model(self.scheme), text_model(self.authority), text_model(self.path_and_query))
    }
}

/// The scheme, the authority and the path and query of the URI that a text is, if it is one.
pub uninterp spec fn uri_parts(text: Seq<char>) -> Option<
    (Option<Seq<char>>, Option<Seq<char>>, Option<Seq<char>>),
>;

/// Calls the `TryFrom<&str>` of `http::Uri`. Whether the text is a URI, and which parts it has,
/// depends on the text alone and is named by [`uri_parts`].
#[verifier::external_body]
fn parse_uri(text: &str) -> (r: Option<UriParts>)
    ensures
        match r {
            Some(parts) => uri_parts(text@) == Some(parts@),
            None => uri_parts(text@) is None,
        },
{
    let uri = http::Uri::try_from(text).ok()?;
    Some(
        UriParts {
            scheme: uri.scheme_str().map(str::to_owned),
            authority: uri.authority().map(|authority| authority.as_str().to_owned()),
            path_and_query: uri.path_and_query().map(|path| path.as_str().to_owned()),
        },
    )
}

/// Whether these are the parts of an absolute HTTP or HTTPS URL.
pub open spec fn names_web_page(
    parts: Option<(Option<Seq<char>>, Option<Seq<char>>, Option<Seq<char>>)>,
) -> bool {
    match parts {
        Some((Some(scheme), Some(_), Some(_))) => scheme == "http"@ || scheme == "https"@,
        _ => false,
    }
}

/// Whether these are the parts of an absolute HTTP or HTTPS URL.
pub fn is_web_page(parts: &Option<UriParts>) -> (r: bool)
    ensures
        r == names_web_page(
            match *parts {
                Some(p) => Some(p@),
                None => None,
            },
        ),
{
    match parts {
        Some(p) => match &p.scheme {
            Some(scheme) => {
                let web = text_eq(scheme.as_str(), "http") || text_eq(scheme.as_str(), "https");
                web && p.authority.is_some() && p.path_and_query.is_some()
            },
            None => false,
        },
        None => false,
    }
}

/// A request target cut apart: `/`, the action, `/`, and the rest.
pub open spec fn split_target_spec(target: Seq<char>) -> Option<(Seq<char>, Seq<char>)> {
    if target.len() > 0 && target[0] == '/' {
        split_once_spec(target.skip(1), '/')
    } else {
        None
    }
}

/// Cuts a request target apart: `/`, the action, `/`, and the rest.
pub fn split_target<'a>(target: &'a str) -> (r: Option<(&'a str, &'a str)>)
    ensures
        match r {
            Some((action, rest)) => split_target_spec(target@) == Some((action@, rest@)),
            None => split_target_spec(target@) is None,
        },
{
    let n: usize = target.unicode_len();
    if n == 0 {
        return None;
    }
    if target.get_char(0) != '/' {
        return None;
    }
    let tail = target.substring_char(1, n);
    assert(tail@ =~= target@.skip(1));
    split_once(tail, '/')
}

/// Where a request goes: the action and the page, if the target has the form `/action/uri` and the
/// URI names a web page.
pub open spec fn route_spec(target: Option<Seq<char>>) -> Option<(Seq<char>, Seq<char>)> {
    match target {
        Some(t) => match split_target_spec(t) {
            Some((action, uri)) => if names_web_page(uri_parts(uri)) {
                Some((action, uri))
            } else {
                None
            },
            None => None,
        },
        None => None,
    }
}

/// Finds out where a request goes. The target is the path and query of its URI.
pub fn route<'a>(target: Option<&'a str>) -> (r: Option<(&'a str, &'a str)>)
    ensures
        route_spec(
            match target {
                Some(t) => Some(t@),
                None => None,
            },
        ) == (match r {
            Some((action, uri)) => Some((action@, uri@)),
            None => None,
        }),
{
    let t = match target {
        Some(t) => t,
        None => {
            return None;
        },
    };
    match split_target(t) {
        Some((action, uri)) => {
            // check that the provided URI is a valid absolute HTTP(S) URL
            if is_web_page(&parse_uri(uri)) {
                Some((action, uri))
            } else {
                None
            }
        },
        None => None,
    }
}

/// The target `/action/uri`.
pub open spec fn target_of(action: Seq<char>, uri: Seq<char>) -> Seq<char> {
    "/"@ + action + "/"@ + uri
}

/// A target that was put together from an action and a page leads back to both.
pub proof fn law_target_leads_back(action: Seq<char>, uri: Seq<char>)
    requires
        !action.contains('/'),
        names_web_page(uri_parts(uri)),
    ensures
        route_spec(Some(target_of(action, uri))) == Some((action, uri)),
{
    reveal_strlit("/");
    let target = target_of(action, uri);
    assert(target[0] == '/');
    assert(target.skip(1) =~= action + seq!['/'] + uri);
    lemma_split_once_at(action, '/', uri);
}

/// A target that leads somewhere is `/`, an action without a slash, `/`, and a page that the web has.
pub proof fn law_route_takes_target_apart(target: Option<Seq<char>>)
    ensures
        route_spec(target) matches Some((action, uri)) ==> {
            &&& target == Some(seq!['/'] + action + seq!['/'] + uri)
            &&& !action.contains('/')
            &&& names_web_page(uri_parts(uri))
        },
{
    if let Some((action, uri)) = route_spec(target) {
        let t = target->0;
        law_split_once_loses_nothing(t.skip(1), '/');
        assert(t =~= seq!['/'] + t.skip(1));
        assert(t =~= seq!['/'] + action + seq!['/'] + uri);
    }
}

/// The web has a page under a URI with the scheme `http` or `https`, an authority and a path, and
/// under no other.
pub proof fn law_web_page_is_absolute(text: Seq<char>)
    ensures
        names_web_page(uri_parts(text)) <==> {
            &&& uri_parts(text) is Some
            &&& (uri_parts(text)->0).0 == Some("http"@) || (uri_parts(text)->0).0 == Some("https"@)
            &&& (uri_parts(text)->0).1 is Some
            &&& (uri_parts(text)->0).2 is Some
        },
{
}

/// Between the first slash of a target and the next stands the action, and all behind that is the
/// rest; a target without these two slashes is not cut apart.
pub proof fn law_target_is_cut_at_slashes(target: Seq<char>)
    ensures
        match split_target_spec(target) {
            Some((action, rest)) => target == seq!['/'] + action + seq!['/'] + rest
                && !action.contains('/'),
            None => target.len() == 0 || target[0] != '/' || !target.skip(1).contains('/'),
        },
{
    if target.len() > 0 && target[0] == '/' {
        law_split_once_loses_nothing(target.skip(1), '/');
        assert(target =~= seq!['/'] + target.skip(1));
        if let Some((action, rest)) = split_target_spec(target) {
            assert(target =~= seq!['/'] + action + seq!['/'] + rest);
        }
    }
}

/// The parts of a URI, and a text that may be missing, are what they hold.
pub proof fn law_models_are_the_parts(parts: UriParts, text: String)
    ensures
        text_model(Some(text)) == Some(text@),
        text_model(None) is None,
        parts@.0 == text_model(parts.scheme),
        parts@.1 == text_model(parts.authority),
        parts@.2 == text_model(parts.path_and_query),
{
}

} // verus!
