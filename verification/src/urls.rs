//! URLs of hubs: resolving them, and carrying parameters in their queries.

use vstd::prelude::*;
use vstd::string::*;
use vstd::utf8::*;

use crate::text::{
    law_split_once_loses_nothing, lemma_split_once_at, split_once, split_once_spec,
};
use crate::uris::text_model;

verus! {

/// A list of names and values, as the contracts speak of it.
pub open spec fn pairs_model(pairs: Seq<(String, String)>) -> Seq<(Seq<char>, Seq<char>)> {
    pairs.map_values(|pair: (String, String)| (pair.0@, pair.1@))
}

/// The names and values that a query string carries.
pub uninterp spec fn form_pairs(query: Seq<char>) -> Seq<(Seq<char>, Seq<char>)>;

/// Calls `form_urlencoded::parse`. The names and values depend on the text alone and are named by
/// [`form_pairs`].
#[verifier::external_body]
pub(crate) fn parse_form(query: &str) -> (r: Vec<(String, String)>)
    ensures
        pairs_model(r@) == form_pairs(query@),
{
    form_urlencoded::parse(query.as_bytes()).into_owned().collect()
}

/// The URL that a reference denotes on a page with the URL `base`.
pub uninterp spec fn url_resolved(base: Seq<char>, reference: Seq<char>) -> Option<Seq<char>>;

/// Calls `Url::parse` on the base and `Url::join` on the result. Whether both succeed, and the URL
/// that comes out, depends on the two texts alone and is named by [`url_resolved`].
#[verifier::external_body]
fn join_url(base: &str, reference: &str) -> (r: Option<String>)
    ensures
        text_model(r) == url_resolved(base@, reference@),
{
    let url = trillium_client::Url::parse(base).ok()?.join(reference).ok()?;
    Some(url.into())
}

/// What a URL consists of before its fragment.
pub open spec fn before_fragment(url: Seq<char>) -> Seq<char> {
    match split_once_spec(url, '#') {
        Some((before, _)) => before,
        None => url,
    }
}

/// The query of a URL: what stands between the first question mark and the fragment.
pub open spec fn query_of(url: Seq<char>) -> Seq<char> {
    match split_once_spec(before_fragment(url), '?') {
        Some((_, query)) => query,
        None => Seq::empty(),
    }
}

/// Whether a byte stands in a query as one byte: a letter, a digit, one of `*-._`, or a space, which
/// becomes a plus sign.
pub open spec fn is_plain(b: u8) -> bool {
    ||| 48 <= b <= 57
    ||| 65 <= b <= 90
    ||| 97 <= b <= 122
    ||| b == 42
    ||| b == 45
    ||| b == 46
    ||| b == 95
    ||| b == 32
}

/// How many bytes these bytes take in a query: one each, or three for a percent sign and two digits.
pub open spec fn form_size(bytes: Seq<u8>) -> nat
    decreases bytes.len(),
{
    if bytes.len() == 0 {
        0
    } else {
        form_size(bytes.drop_last()) + (if is_plain(bytes.last()) {
            1nat
        } else {
            3nat
        })
    }
}

/// How many bytes a name and a value take in a query, with the equals sign between them.
pub open spec fn pair_size(pair: (Seq<char>, Seq<char>)) -> nat {
    form_size(encode_utf8(pair.0)) + 1 + form_size(encode_utf8(pair.1))
}

/// How many bytes parameters take in a query, with the ampersands between them.
pub open spec fn pairs_size(pairs: Seq<(Seq<char>, Seq<char>)>) -> nat
    decreases pairs.len(),
{
    if pairs.len() == 0 {
        0
    } else if pairs.len() == 1 {
        pair_size(pairs[0])
    } else {
        pairs_size(pairs.drop_last()) + 1 + pair_size(pairs.last())
    }
}

/// How many bytes a URL grows by when it gets these parameters: a question mark if it has no query,
/// or an ampersand if its query holds something, and the parameters.
pub open spec fn growth(url: Seq<char>, pairs: Seq<(Seq<char>, Seq<char>)>) -> nat {
    let separator = match split_once_spec(before_fragment(url), '?') {
        Some((_, query)) => if query.len() > 0 && pairs.len() > 0 {
            1nat
        } else {
            0nat
        },
        None => 1nat,
    };
    separator + pairs_size(pairs)
}

/// Whether a URL that gets these parameters can address its parts, for which it has 32 bits: where
/// its query begins, and where its fragment does.
pub open spec fn fits_url(url: Seq<char>, pairs: Seq<(Seq<char>, Seq<char>)>) -> bool {
    let size = encode_utf8(before_fragment(url)).len();
    &&& split_once_spec(before_fragment(url), '?') is None ==> size <= u32::MAX
    &&& split_once_spec(url, '#') is Some ==> size + growth(url, pairs) <= u32::MAX
}

/// The URL that a reference denotes on a page with the URL `base`, with parameters behind those that
/// its query already carries.
pub uninterp spec fn url_with_pairs(
    base: Seq<char>,
    reference: Seq<char>,
    pairs: Seq<(Seq<char>, Seq<char>)>,
) -> Seq<char>;

/// Whether a list ends with another.
pub open spec fn ends_with(
    list: Seq<(Seq<char>, Seq<char>)>,
    end: Seq<(Seq<char>, Seq<char>)>,
) -> bool {
    end.len() <= list.len() && list.skip(list.len() - end.len()) == end
}

/// Calls `Serializer::extend_pairs` on the `Url::query_pairs_mut` of the URL that `Url::parse` and
/// `Url::join` give, which are the calls of [`join_url`] and succeed where those do. The URL that
/// comes out depends on the arguments alone and is named by [`url_with_pairs`]; whoever reads its
/// query finds the given names and values there, behind those that were there before.
#[verifier::external_body]
fn extend_query(base: &str, reference: &str, pairs: &Vec<(String, String)>) -> (r: Option<String>)
    requires
        url_resolved(base@, reference@) matches Some(url) && fits_url(url, pairs_model(pairs@)),
    ensures
        text_model(r) == Some(url_with_pairs(base@, reference@, pairs_model(pairs@))),
        r matches Some(extended) ==> ends_with(
            form_pairs(query_of(extended@)),
            pairs_model(pairs@),
        ),
{
    let mut url = trillium_client::Url::parse(base).ok()?.join(reference).ok()?;
    url.query_pairs_mut().extend_pairs(pairs);
    Some(url.into())
}

fn compute_form_size(text: &str) -> (r: u128)
    ensures
        r == form_size(encode_utf8(text@)),
        r <= 3 * usize::MAX,
{
    let bytes = text.as_bytes();
    let mut size: u128 = 0;
    let mut i: usize = 0;
    while i < bytes.len()
        invariant
            i <= bytes@.len(),
            size == form_size(bytes@.take(i as int)),
            size <= 3 * i,
        decreases bytes@.len() - i,
    {
        let b: u8 = bytes[i];
        assert(bytes@.take(i + 1).drop_last() =~= bytes@.take(i as int));
        assert(bytes@.take(i + 1).last() == b);
        let plain: bool = (48 <= b && b <= 57) || (65 <= b && b <= 90) || (97 <= b && b <= 122) || b
            == 42 || b == 45 || b == 46 || b == 95 || b == 32;
        size = size + (if plain {
            1
        } else {
            3
        });
        i = i + 1;
    }
    assert(bytes@.take(i as int) =~= bytes@);
    size
}

fn compute_pair_size(pair: &(String, String)) -> (r: u128)
    ensures
        r == pair_size((pair.0@, pair.1@)),
        r <= 6 * usize::MAX + 1,
{
    compute_form_size(pair.0.as_str()) + 1 + compute_form_size(pair.1.as_str())
}

/// Whether a URL that grows by parameters can address its parts. `size` is what the parameters take.
fn can_grow(url: &str, Ghost(pairs): Ghost<Seq<(Seq<char>, Seq<char>)>>, size: u128) -> (r: bool)
    requires
        pairs.len() > 0,
        size == pairs_size(pairs),
        size <= 32 * usize::MAX,
    ensures
        r == fits_url(url@, pairs),
{
    let limit: u128 = u32::MAX as u128;
    let (address, has_fragment): (&str, bool) = match split_once(url, '#') {
        Some((before, _)) => (before, true),
        None => (url, false),
    };
    let start: u128 = address.as_bytes().len() as u128;
    let (has_query, separator): (bool, u128) = match split_once(address, '?') {
        Some((_, query)) => (
            true,
            if query.unicode_len() > 0 {
                1
            } else {
                0
            },
        ),
        None => (false, 1),
    };
    (has_query || start <= limit) && (!has_fragment || start + separator + size <= limit)
}

/// The parameters of a request for a subscription.
pub open spec fn subscription_pairs(topic: Seq<char>, callback: Seq<char>) -> Seq<
    (Seq<char>, Seq<char>),
> {
    seq![("hub.callback"@, callback), ("hub.mode"@, "subscribe"@), ("hub.topic"@, topic)]
}

/// Where a request for a subscription to `topic` goes: to the hub, whose URL is relative to that of
/// the topic. None if one of them is no URL, or if the URL cannot grow by the parameters.
pub open spec fn subscription_request_spec(
    topic: Seq<char>,
    hub: Seq<char>,
    callback: Seq<char>,
) -> Option<Seq<char>> {
    match url_resolved(topic, hub) {
        Some(url) => if fits_url(url, subscription_pairs(topic, callback)) {
            Some(url_with_pairs(topic, hub, subscription_pairs(topic, callback)))
        } else {
            None
        },
        None => None,
    }
}

/// Works out the URL of a request for a subscription to `topic`.
pub fn subscription_request(topic: &str, hub: &str, callback: &str) -> (r: Option<String>)
    ensures
        text_model(r) == subscription_request_spec(topic@, hub@, callback@),
        r matches Some(url) ==> ends_with(
            form_pairs(query_of(url@)),
            subscription_pairs(topic@, callback@),
        ),
{
    let url = match join_url(topic, hub) {
        Some(url) => url,
        None => {
            return None;
        },
    };
    let mut pairs: Vec<(String, String)> = Vec::new();
    pairs.push(("hub.callback".to_owned(), callback.to_owned()));
    pairs.push(("hub.mode".to_owned(), "subscribe".to_owned()));
    pairs.push(("hub.topic".to_owned(), topic.to_owned()));
    let ghost wanted = subscription_pairs(topic@, callback@);
    assert(pairs_model(pairs@) =~= wanted);
    let size: u128 = compute_pair_size(&pairs[0]) + 1 + compute_pair_size(&pairs[1]) + 1
        + compute_pair_size(&pairs[2]);
    proof {
        let two = wanted.drop_last();
        let one = two.drop_last();
        assert(pairs_size(one) == pair_size(wanted[0]));
        assert(pairs_size(two) == pairs_size(one) + 1 + pair_size(wanted[1]));
        assert(pairs_size(wanted) == pairs_size(two) + 1 + pair_size(wanted[2]));
    }
    if can_grow(url.as_str(), Ghost(wanted), size) {
        extend_query(topic, hub, &pairs)
    } else {
        None
    }
}

/// A request for a subscription carries where to call back, that it subscribes, and to what, each
/// under its name, and nothing else.
pub proof fn law_request_says_what_is_wanted(topic: Seq<char>, callback: Seq<char>)
    ensures
        subscription_pairs(topic, callback).len() == 3,
        subscription_pairs(topic, callback).contains(("hub.callback"@, callback)),
        subscription_pairs(topic, callback).contains(("hub.mode"@, "subscribe"@)),
        subscription_pairs(topic, callback).contains(("hub.topic"@, topic)),
{
    let pairs = subscription_pairs(topic, callback);
    assert(pairs[0] == ("hub.callback"@, callback));
    assert(pairs[1] == ("hub.mode"@, "subscribe"@));
    assert(pairs[2] == ("hub.topic"@, topic));
}

/// A request goes to the hub as it is resolved on the topic, with its parameters behind those of the
/// hub, whenever both have a URL that can grow by the parameters; and else nowhere.
pub proof fn law_request_goes_to_the_hub(topic: Seq<char>, hub: Seq<char>, callback: Seq<char>)
    ensures
        match url_resolved(topic, hub) {
            Some(url) => {
                let pairs = seq![
                    ("hub.callback"@, callback),
                    ("hub.mode"@, "subscribe"@),
                    ("hub.topic"@, topic),
                ];
                &&& fits_url(url, pairs) ==> subscription_request_spec(topic, hub, callback)
                    == Some(url_with_pairs(topic, hub, pairs))
                &&& !fits_url(url, pairs) ==> subscription_request_spec(
                    topic,
                    hub,
                    callback,
                ) is None
            },
            None => subscription_request_spec(topic, hub, callback) is None,
        },
{
    assert(subscription_pairs(topic, callback) =~= seq![
        ("hub.callback"@, callback),
        ("hub.mode"@, "subscribe"@),
        ("hub.topic"@, topic),
    ]);
}

/// A URL can grow by parameters if two positions fit 32 bits: that of a question mark that it gets,
/// and that of its fragment behind them. A URL without a fragment can grow without end.
pub proof fn law_url_grows_up_to_its_limit(
    address: Seq<char>,
    fragment: Seq<char>,
    pairs: Seq<(Seq<char>, Seq<char>)>,
)
    requires
        !address.contains('#'),
        pairs.len() > 0,
    ensures
        ({
            let size = encode_utf8(address).len();
            let joins = address.len() == 0 || address.last() != '?'
                || address.drop_last().contains('?');
            &&& fits_url(address, pairs) <==> address.contains('?') || size <= 0xffff_ffff
            &&& fits_url(address + seq!['#'] + fragment, pairs) <==> {
                &&& address.contains('?') || size <= 0xffff_ffff
                &&& joins ==> size + 1 + pairs_size(pairs) <= 0xffff_ffff
                &&& !joins ==> size + pairs_size(pairs) <= 0xffff_ffff
            }
        }),
{
    let url = address + seq!['#'] + fragment;
    lemma_split_once_at(address, '#', fragment);
    law_split_once_loses_nothing(address, '#');
    law_split_once_loses_nothing(address, '?');
    assert(split_once_spec(address, '#') is None) by {
        if let Some((before, after)) = split_once_spec(address, '#') {
            assert(address[before.len() as int] == '#');
        }
    }
    if let Some((before, query)) = split_once_spec(address, '?') {
        assert(address[before.len() as int] == '?');
        if query.len() == 0 {
            assert(address.last() == '?');
            assert(address.drop_last() =~= before);
        } else {
            let front = address.drop_last();
            assert(front[before.len() as int] == '?');
        }
    } else {
        if address.len() > 0 && address.last() == '?' {
            assert(address[address.len() - 1] == '?');
        }
    }
}

/// In a query the letters, the digits, `*`, `-`, `.`, `_` and the space take one byte each, and any
/// other byte takes three; bytes take together what they take alone.
pub proof fn law_form_size_adds_up(bytes: Seq<u8>, b: u8)
    ensures
        form_size(Seq::empty()) == 0,
        ({
            let plain = ('0' as u8 <= b <= '9' as u8) || ('A' as u8 <= b <= 'Z' as u8) || ('a' as u8
                <= b <= 'z' as u8) || b == '*' as u8 || b == '-' as u8 || b == '.' as u8 || b
                == '_' as u8 || b == ' ' as u8;
            &&& plain ==> form_size(bytes.push(b)) == form_size(bytes) + 1
            &&& !plain ==> form_size(bytes.push(b)) == form_size(bytes) + 3
        }),
{
    assert(bytes.push(b).drop_last() =~= bytes);
}

/// Each parameter takes what its name and its value take and an equals sign, and each but the first
/// an ampersand before it.
pub proof fn law_pairs_size_adds_up(
    pairs: Seq<(Seq<char>, Seq<char>)>,
    name: Seq<char>,
    value: Seq<char>,
)
    ensures
        ({
            let more = pairs.push((name, value));
            let alone = form_size(encode_utf8(name)) + 1 + form_size(encode_utf8(value));
            &&& pairs.len() == 0 ==> pairs_size(more) == alone
            &&& pairs.len() > 0 ==> pairs_size(more) == pairs_size(pairs) + 1 + alone
        }),
{
    assert(pairs.push((name, value)).drop_last() =~= pairs);
}

/// The query of a URL is what stands between its first question mark and its fragment.
pub proof fn law_query_stands_before_fragment(
    path: Seq<char>,
    query: Seq<char>,
    fragment: Seq<char>,
)
    requires
        !path.contains('?'),
        !path.contains('#'),
        !query.contains('#'),
    ensures
        query_of(path + seq!['?'] + query) == query,
        query_of(path + seq!['?'] + query + seq!['#'] + fragment) == query,
{
    let address = path + seq!['?'] + query;
    assert(!address.contains('#')) by {
        assert forall|i: int| 0 <= i < address.len() implies address[i] != '#' by {
            if i < path.len() {
                assert(address[i] == path[i]);
            } else if i > path.len() {
                assert(address[i] == query[i - path.len() - 1]);
            }
        }
    }
    lemma_split_once_at(path, '?', query);
    lemma_split_once_at(address, '#', fragment);
    law_split_once_loses_nothing(address, '#');
    if let Some((before, after)) = split_once_spec(address, '#') {
        assert(address[before.len() as int] == '#');
    }
}

/// A list of names and values is what it holds, in order.
pub proof fn law_pairs_are_what_they_hold(pairs: Seq<(String, String)>)
    ensures
        pairs_model(pairs).len() == pairs.len(),
        forall|i: int|
            0 <= i < pairs.len() ==> #[trigger] pairs_model(pairs)[i] == (pairs[i].0@, pairs[i].1@),
{
}

} // verus!
