//! Version tokens: a short hash of a page's contents, written so that it can stand in a URL.

use base64::Engine;
use blake2::Digest;
use vstd::prelude::*;

use crate::text::{ascii_chars, is_ascii_bytes, utf8_text};

verus! {

/// A version token: eight symbols of the URL-safe base64 alphabet.
///
/// All zero stands for "no version": no page has that token.
pub type ContentHash = [u8; 8];

/// The token that stands for "no version".
pub open spec fn blank_token() -> Seq<u8> {
    seq![0u8, 0, 0, 0, 0, 0, 0, 0]
}

/// The 48-bit BLAKE2s digest of `data`.
pub uninterp spec fn blake2s_48(data: Seq<u8>) -> Seq<u8>;

/// Calls `Digest::digest` of `blake2::Blake2s` with an output of six bytes. The result depends
/// on the data alone, and is named by [`blake2s_48`].
#[verifier::external_body]
fn blake2s_digest(data: &[u8]) -> (r: [u8; 6])
    ensures
        r@ == blake2s_48(data@),
{
    blake2::Blake2s::<blake2::digest::consts::U6>::digest(data).into()
}

/// The symbol of the URL-safe base64 alphabet that stands for `v`, which is below 64.
pub open spec fn url_safe_symbol(v: int) -> u8 {
    if v < 26 {
        (65 + v) as u8
    } else if v < 52 {
        (97 + v - 26) as u8
    } else if v < 62 {
        (48 + v - 52) as u8
    } else if v == 62 {
        45
    } else {
        95
    }
}

/// The byte at `i`, or zero behind the end.
pub open spec fn byte_or_zero(data: Seq<u8>, i: int) -> int {
    if 0 <= i < data.len() {
        data[i] as int
    } else {
        0
    }
}

/// The three bytes at `3 * k` as one number.
pub open spec fn word_at(data: Seq<u8>, k: int) -> int {
    65536 * byte_or_zero(data, 3 * k) + 256 * byte_or_zero(data, 3 * k + 1) + byte_or_zero(
        data,
        3 * k + 2,
    )
}

/// The `i`-th group of six bits of `data`, counted from its first bit.
pub open spec fn sextet(data: Seq<u8>, i: int) -> int {
    let word = word_at(data, i / 4);
    if i % 4 == 0 {
        word / 262144
    } else if i % 4 == 1 {
        word / 4096 % 64
    } else if i % 4 == 2 {
        word / 64 % 64
    } else {
        word % 64
    }
}

/// `data` in URL-safe base64 without padding.
pub open spec fn base64_url(data: Seq<u8>) -> Seq<u8> {
    Seq::new((4 * data.len() + 2) / 3, |i: int| url_safe_symbol(sextet(data, i)))
}

/// `base64::EncodeSliceError`: why a text did not fit. It is carried and never looked into.
#[verifier::external_type_specification]
#[verifier::external_body]
pub struct ExEncodeSliceError(base64::EncodeSliceError);

/// Calls `Engine::encode_slice` of `base64::engine::general_purpose::URL_SAFE_NO_PAD`: the text is
/// written to the front of `output` and its length returned, unless `output` is too short for it.
#[verifier::external_body]
fn encode_slice(input: &[u8], output: &mut [u8; 8]) -> (r: Result<usize, base64::EncodeSliceError>)
    ensures
        r is Ok <==> base64_url(input@).len() <= 8,
        r matches Ok(n) ==> {
            &&& n == base64_url(input@).len()
            &&& final(output)@ == base64_url(input@) + old(output)@.skip(n as int)
        },
        r is Err ==> final(output)@ == old(output)@,
{
    base64::engine::general_purpose::URL_SAFE_NO_PAD.encode_slice(input, output)
}

/// The token of a page whose contents have this digest.
pub fn encode_digest(digest: &[u8; 6]) -> (r: ContentHash)
    ensures
        r@ == base64_url(digest@),
{
    let mut hash: ContentHash = [0u8; 8];
    let written = encode_slice(digest, &mut hash);
    assert(base64_url(digest@).len() == 8);
    assert(written is Ok);
    assert(hash@ =~= base64_url(digest@));
    hash
}

/// The token of a page with these contents.
pub open spec fn token_of(contents: Seq<u8>) -> Seq<u8> {
    base64_url(blake2s_48(contents))
}

/// Hashes a page.
pub fn content_hash(contents: &[u8]) -> (r: ContentHash)
    ensures
        r@ == token_of(contents@),
        is_token(r@),
{
    let digest = blake2s_digest(contents);
    proof {
        lemma_base64_is_token(digest@);
    }
    encode_digest(&digest)
}

/// Whether `b` is a symbol of the URL-safe base64 alphabet.
pub open spec fn is_url_safe(b: u8) -> bool {
    ||| 65 <= b <= 90
    ||| 97 <= b <= 122
    ||| 48 <= b <= 57
    ||| b == 45
    ||| b == 95
}

/// Whether `token` can be the token of a page: eight symbols of the alphabet.
pub open spec fn is_token(token: Seq<u8>) -> bool {
    &&& token.len() == 8
    &&& forall|i: int| 0 <= i < token.len() ==> is_url_safe(#[trigger] token[i])
}

proof fn lemma_sextet_range(data: Seq<u8>, i: int)
    requires
        0 <= i,
    ensures
        0 <= sextet(data, i) < 64,
{
}

/// The text of a six-byte digest is a token.
pub proof fn lemma_base64_is_token(digest: Seq<u8>)
    requires
        digest.len() == 6,
    ensures
        is_token(base64_url(digest)),
{
    let text = base64_url(digest);
    assert forall|i: int| 0 <= i < text.len() implies is_url_safe(#[trigger] text[i]) by {
        lemma_sextet_range(digest, i);
    }
}

/// No page has the blank token, whatever its contents.
pub proof fn law_token_is_never_blank(contents: Seq<u8>)
    ensures
        token_of(contents) != blank_token(),
{
    let digest = blake2s_48(contents);
    let token = base64_url(digest);
    if token.len() == 8 {
        lemma_sextet_range(digest, 0);
        assert(token[0] == url_safe_symbol(sextet(digest, 0)));
        assert(blank_token()[0] == 0);
    }
}

/// Equal symbols stand for equal values.
proof fn lemma_symbol_injective(v: int, w: int)
    requires
        0 <= v < 64,
        0 <= w < 64,
        url_safe_symbol(v) == url_safe_symbol(w),
    ensures
        v == w,
{
}

/// The four groups of six bits fix a word.
proof fn lemma_word_from_groups(v: int, w: int)
    requires
        0 <= v,
        0 <= w,
        v / 262144 == w / 262144,
        v / 4096 % 64 == w / 4096 % 64,
        v / 64 % 64 == w / 64 % 64,
        v % 64 == w % 64,
    ensures
        v == w,
{
    assert(v / 4096 / 64 == v / 262144);
    assert(w / 4096 / 64 == w / 262144);
    assert(v / 4096 == w / 4096);
    assert(v / 64 / 64 == v / 4096);
    assert(w / 64 / 64 == w / 4096);
    assert(v / 64 == w / 64);
}

/// Equal groups of six bits come from equal words.
proof fn lemma_word_from_sextets(a: Seq<u8>, b: Seq<u8>, k: int)
    requires
        0 <= k,
        sextet(a, 4 * k) == sextet(b, 4 * k),
        sextet(a, 4 * k + 1) == sextet(b, 4 * k + 1),
        sextet(a, 4 * k + 2) == sextet(b, 4 * k + 2),
        sextet(a, 4 * k + 3) == sextet(b, 4 * k + 3),
    ensures
        word_at(a, k) == word_at(b, k),
{
    let v = word_at(a, k);
    let w = word_at(b, k);
    assert(4 * k / 4 == k && (4 * k + 1) / 4 == k && (4 * k + 2) / 4 == k && (4 * k + 3) / 4 == k);
    lemma_word_from_groups(v, w);
}

/// Two contents share a token only if they share the digest: writing the digest down loses nothing.
pub proof fn law_token_keeps_digest(a: Seq<u8>, b: Seq<u8>)
    requires
        a.len() == 6,
        b.len() == 6,
        base64_url(a) == base64_url(b),
    ensures
        a == b,
{
    let s = base64_url(a);
    let t = base64_url(b);
    assert forall|i: int| 0 <= i < 8 implies #[trigger] sextet(a, i) == sextet(b, i) by {
        assert(s[i] == url_safe_symbol(sextet(a, i)));
        assert(t[i] == url_safe_symbol(sextet(b, i)));
        lemma_sextet_range(a, i);
        lemma_sextet_range(b, i);
        lemma_symbol_injective(sextet(a, i), sextet(b, i));
    }
    lemma_word_from_sextets(a, b, 0);
    lemma_word_from_sextets(a, b, 1);
    assert(a =~= b);
}

/// Whether a token and a text that a client sent are the same bytes.
pub fn same_bytes(token: &ContentHash, seen: &[u8]) -> (r: bool)
    ensures
        r == (token@ == seen@),
{
    if seen.len() != 8 {
        return false;
    }
    let mut i: usize = 0;
    while i < 8
        invariant
            i <= 8,
            seen@.len() == 8,
            forall|j: int| 0 <= j < i ==> token@[j] == seen@[j],
        decreases 8 - i,
    {
        if token[i] != seen[i] {
            return false;
        }
        i = i + 1;
    }
    assert(token@ =~= seen@);
    true
}

/// A token as text.
pub fn token_text(token: &ContentHash) -> (r: String)
    requires
        is_token(token@),
    ensures
        r@ == ascii_chars(token@),
{
    assert(is_ascii_bytes(token@)) by {
        assert forall|i: int| 0 <= i < token@.len() implies #[trigger] token@[i] < 128 by {
            assert(is_url_safe(token@[i]));
        }
    }
    utf8_text(token)
}

/// Reads a token that a client sent: blank unless the text is eight bytes long.
pub fn token_from_text(text: Option<&str>) -> (r: ContentHash)
    ensures
        r@ == token_from_text_spec(
            match text {
                Some(t) => Some(t@),
                None => None,
            },
        ),
{
    let mut token: ContentHash = [0u8; 8];
    assert(token@ =~= blank_token());
    if let Some(t) = text {
        let bytes = t.as_bytes();
        if bytes.len() == 8 {
            let mut i: usize = 0;
            while i < 8
                invariant
                    i <= 8,
                    bytes@.len() == 8,
                    forall|j: int| 0 <= j < i ==> token@[j] == bytes@[j],
                decreases 8 - i,
            {
                token[i] = bytes[i];
                i = i + 1;
            }
            assert(token@ =~= bytes@);
        }
    }
    token
}

/// What [`token_from_text`] reads.
pub open spec fn token_from_text_spec(text: Option<Seq<char>>) -> Seq<u8> {
    match text {
        Some(t) => if vstd::utf8::encode_utf8(t).len() == 8 {
            vstd::utf8::encode_utf8(t)
        } else {
            blank_token()
        },
        None => blank_token(),
    }
}

/// A token is the digest of all the contents, written down: contents with the same token have the
/// same digest, however long they are.
pub proof fn law_token_tells_digests_apart(a: Seq<u8>, b: Seq<u8>)
    requires
        blake2s_48(a).len() == 6,
        blake2s_48(b).len() == 6,
    ensures
        token_of(a) == base64_url(blake2s_48(a)),
        token_of(a) == token_of(b) <==> blake2s_48(a) == blake2s_48(b),
{
    if token_of(a) == token_of(b) {
        law_token_keeps_digest(blake2s_48(a), blake2s_48(b));
    }
}

/// A text of eight bytes is read as the token with those bytes; any other text, and none, as eight
/// zeros.
pub proof fn law_token_is_eight_bytes(text: Option<Seq<char>>)
    ensures
        token_from_text_spec(text).len() == 8,
        match text {
            Some(t) if vstd::utf8::encode_utf8(t).len() == 8 => token_from_text_spec(text)
                == vstd::utf8::encode_utf8(t),
            _ => forall|i: int| 0 <= i < 8 ==> #[trigger] token_from_text_spec(text)[i] == 0,
        },
{
}

/// Tokens consist of the letters, the digits, the hyphen and the underscore.
pub proof fn law_token_symbols(token: Seq<u8>)
    ensures
        is_token(token) <==> token.len() == 8 && forall|i: int|
            0 <= i < 8 ==> {
                ||| 'A' as u8 <= #[trigger] token[i] <= 'Z' as u8
                ||| 'a' as u8 <= token[i] <= 'z' as u8
                ||| '0' as u8 <= token[i] <= '9' as u8
                ||| token[i] == '-' as u8
                ||| token[i] == '_' as u8
            },
{
    if is_token(token) {
        assert forall|i: int| 0 <= i < 8 implies {
            ||| 'A' as u8 <= #[trigger] token[i] <= 'Z' as u8
            ||| 'a' as u8 <= token[i] <= 'z' as u8
            ||| '0' as u8 <= token[i] <= '9' as u8
            ||| token[i] == '-' as u8
            ||| token[i] == '_' as u8
        } by {
            assert(is_url_safe(token[i]));
        }
    }
}

} // verus!
