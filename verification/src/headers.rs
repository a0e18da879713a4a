//! The headers of a response, as the `http` crate holds them.

use http::HeaderMap;
use vstd::prelude::*;
use vstd::string::*;

use crate::fields::{can_read_as_text, is_text};

verus! {

/// `http::HeaderValue`, the type of the values in a header map.
#[verifier::external_type_specification]
#[verifier::external_body]
pub struct ExHeaderValue(http::HeaderValue);

/// `http::HeaderMap`, whose contents are named by [`header_contents`].
#[verifier::external_type_specification]
#[verifier::external_body]
#[verifier::reject_recursive_types(T)]
pub struct ExHeaderMap<T>(http::HeaderMap<T>);

/// What a header map holds: for each name, in lower case, its values in the order in which they
/// were received.
pub uninterp spec fn header_contents(headers: http::HeaderMap) -> Map<Seq<char>, Seq<Seq<u8>>>;

/// Whether a text is a header name in the form under which a header map keeps it: lower case
/// letters and hyphens, at most 64 of them.
pub open spec fn is_header_key(name: Seq<char>) -> bool {
    &&& 0 < name.len() <= 64
    &&& forall|i: int|
        0 <= i < name.len() ==> ('a' <= #[trigger] name[i] && name[i] <= 'z') || name[i] == '-'
}

/// The first value under a name.
pub open spec fn first_value(
    contents: Map<Seq<char>, Seq<Seq<u8>>>,
    name: Seq<char>,
) -> Option<Seq<u8>> {
    if contents.contains_key(name) && contents[name].len() > 0 {
        Some(contents[name][0])
    } else {
        None
    }
}

/// All values under a name.
pub open spec fn all_values(
    contents: Map<Seq<char>, Seq<Seq<u8>>>,
    name: Seq<char>,
) -> Seq<Seq<u8>> {
    if contents.contains_key(name) {
        contents[name]
    } else {
        Seq::empty()
    }
}

/// Calls `HeaderMap::get`: the first value under a name, as bytes.
#[verifier::external_body]
pub(crate) fn get(headers: &HeaderMap, name: &str) -> (r: Option<Vec<u8>>)
    requires
        is_header_key(name@),
    ensures
        match r {
            Some(value) => first_value(header_contents(*headers), name@) == Some(value@),
            None => first_value(header_contents(*headers), name@) is None,
        },
{
    match headers.get(name) {
        Some(value) => Some(value.as_bytes().to_vec()),
        None => None,
    }
}

/// Calls `HeaderMap::get_all`: every value under a name, as bytes, in the order of the map.
#[verifier::external_body]
pub(crate) fn get_all(headers: &HeaderMap, name: &str) -> (r: Vec<Vec<u8>>)
    requires
        is_header_key(name@),
    ensures
        r.deep_view() == all_values(header_contents(*headers), name@),
{
    headers.get_all(name).iter().map(|value| value.as_bytes().to_vec()).collect()
}

/// The first value under a name, if it can be read as text.
pub open spec fn text_value(
    contents: Map<Seq<char>, Seq<Seq<u8>>>,
    name: Seq<char>,
) -> Option<Seq<u8>> {
    match first_value(contents, name) {
        Some(value) => if is_text(value) {
            Some(value)
        } else {
            None
        },
        None => None,
    }
}

/// The first value under a name, if it can be read as text.
pub fn get_text(headers: &HeaderMap, name: &str) -> (r: Option<Vec<u8>>)
    requires
        is_header_key(name@),
    ensures
        match r {
            Some(value) => text_value(header_contents(*headers), name@) == Some(value@),
            None => text_value(header_contents(*headers), name@) is None,
        },
{
    match get(headers, name) {
        Some(value) => if can_read_as_text(value.as_slice()) {
            Some(value)
        } else {
            None
        },
        None => None,
    }
}

/// The first value under a name is the one that was received first, and all values are all of them;
/// under a name that was not received there is none.
pub proof fn law_values_are_those_received(
    contents: Map<Seq<char>, Seq<Seq<u8>>>,
    name: Seq<char>,
    values: Seq<Seq<u8>>,
)
    ensures
        all_values(contents.insert(name, values), name) == values,
        values.len() > 0 ==> first_value(contents.insert(name, values), name) == Some(values[0]),
        values.len() == 0 ==> first_value(contents.insert(name, values), name) is None,
        !contents.contains_key(name) ==> all_values(contents, name).len() == 0 && first_value(
            contents,
            name,
        ) is None,
{
}

/// A first value that can be read as text is handed out unchanged; any other is none, whatever
/// follows it.
pub proof fn law_text_value_is_the_first(
    contents: Map<Seq<char>, Seq<Seq<u8>>>,
    name: Seq<char>,
)
    ensures
        match first_value(contents, name) {
            Some(value) => text_value(contents, name) == (if is_text(value) {
                Some(value)
            } else {
                None
            }),
            None => text_value(contents, name) is None,
        },
{
}

} // verus!
