//! Reading header field values: separators, white space and decimal numbers, on bytes.

use vstd::prelude::*;
use vstd::slice::*;
use vstd::utf8::*;

use crate::text::{digit_char, number_text};

verus! {

/// Whether a byte may stand in a header value that is read as text: visible ASCII, space or tab.
pub open spec fn is_visible(b: u8) -> bool {
    32 <= b < 127 || b == 9
}

/// Whether a header value can be read as text.
pub open spec fn is_text(value: Seq<u8>) -> bool {
    forall|i: int| 0 <= i < value.len() ==> is_visible(#[trigger] value[i])
}

/// Whether a header value can be read as text.
pub fn can_read_as_text(value: &[u8]) -> (r: bool)
    ensures
        r == is_text(value@),
{
    let mut i: usize = 0;
    while i < value.len()
        invariant
            i <= value@.len(),
            forall|j: int| 0 <= j < i ==> is_visible(#[trigger] value@[j]),
        decreases value@.len() - i,
    {
        let b: u8 = value[i];
        if !((32 <= b && b < 127) || b == 9) {
            assert(!is_visible(value@[i as int]));
            return false;
        }
        i = i + 1;
    }
    true
}

/// `s` cut at its first `sep`: what stands before it and what stands behind it.
pub open spec fn cut_once_spec(s: Seq<u8>, sep: u8) -> Option<(Seq<u8>, Seq<u8>)> {
    match s.index_of_first(sep) {
        Some(i) => Some((s.take(i), s.skip(i + 1))),
        None => None,
    }
}

/// The parts of `s` between the separators, in order.
pub open spec fn split_spec(s: Seq<u8>, sep: u8) -> Seq<Seq<u8>>
    decreases s.len(),
{
    proof {
        s.index_of_first_ensures(sep);
    }
    match cut_once_spec(s, sep) {
        Some((before, after)) => seq![before] + split_spec(after, sep),
        None => seq![s],
    }
}

/// Cuts `s` at its first `sep`.
pub fn cut_once<'a>(s: &'a [u8], sep: u8) -> (r: Option<(&'a [u8], &'a [u8])>)
    ensures
        match r {
            Some((a, b)) => cut_once_spec(s@, sep) == Some((a@, b@)) && b@.len() < s@.len(),
            None => cut_once_spec(s@, sep) is None,
        },
{
    proof {
        s@.index_of_first_ensures(sep);
    }
    let mut i: usize = 0;
    while i < s.len()
        invariant
            i <= s@.len(),
            forall|j: int| 0 <= j < i ==> s@[j] != sep,
        decreases s@.len() - i,
    {
        if s[i] == sep {
            proof {
                s@.index_of_first_ensures(sep);
                assert(s@.contains(s@[i as int]));
                assert(s@.index_of_first(sep) == Some(i as int));
                assert(s@.subrange(0, i as int) =~= s@.take(i as int));
                assert(s@.subrange(i + 1, s@.len() as int) =~= s@.skip(i + 1));
            }
            let a = slice_subrange(s, 0, i);
            let b = slice_subrange(s, i + 1, s.len());
            return Some((a, b));
        }
        i = i + 1;
    }
    None
}

/// Whether a byte is ASCII white space.
pub open spec fn is_space(b: u8) -> bool {
    b == 32 || b == 9 || b == 10 || b == 12 || b == 13
}

/// `s` without white space at its front.
pub open spec fn trim_start_spec(s: Seq<u8>) -> Seq<u8>
    decreases s.len(),
{
    if s.len() > 0 && is_space(s[0]) {
        trim_start_spec(s.skip(1))
    } else {
        s
    }
}

/// `s` without white space at its end.
pub open spec fn trim_end_spec(s: Seq<u8>) -> Seq<u8>
    decreases s.len(),
{
    if s.len() > 0 && is_space(s.last()) {
        trim_end_spec(s.drop_last())
    } else {
        s
    }
}

/// `s` without white space at either end.
pub open spec fn trim_spec(s: Seq<u8>) -> Seq<u8> {
    trim_end_spec(trim_start_spec(s))
}

fn space(b: u8) -> (r: bool)
    ensures
        r == is_space(b),
{
    b == 32 || b == 9 || b == 10 || b == 12 || b == 13
}

/// Removes ASCII white space at both ends.
pub fn trim<'a>(s: &'a [u8]) -> (r: &'a [u8])
    ensures
        r@ == trim_spec(s@),
{
    let mut i: usize = 0;
    assert(s@.skip(0) =~= s@);
    while i < s.len() && space(s[i])
        invariant
            i <= s@.len(),
            trim_start_spec(s@) == trim_start_spec(s@.skip(i as int)),
        decreases s@.len() - i,
    {
        assert(s@.skip(i as int).skip(1) =~= s@.skip(i + 1));
        i = i + 1;
    }
    assert(trim_start_spec(s@) == s@.skip(i as int));
    let mut j: usize = s.len();
    let ghost front = s@.skip(i as int);
    assert(s@.subrange(i as int, j as int) =~= front);
    while i < j && space(s[j - 1])
        invariant
            i <= j <= s@.len(),
            trim_end_spec(front) == trim_end_spec(s@.subrange(i as int, j as int)),
        decreases j,
    {
        let ghost here = s@.subrange(i as int, j as int);
        assert(here.drop_last() =~= s@.subrange(i as int, j - 1));
        assert(here.last() == s@[j - 1]);
        j = j - 1;
    }
    slice_subrange(s, i, j)
}

/// Whether two byte strings are the same.
pub fn bytes_eq(a: &[u8], b: &[u8]) -> (r: bool)
    ensures
        r == (a@ == b@),
{
    if a.len() != b.len() {
        return false;
    }
    let mut i: usize = 0;
    while i < a.len()
        invariant
            i <= a@.len(),
            a@.len() == b@.len(),
            forall|j: int| 0 <= j < i ==> a@[j] == b@[j],
        decreases a@.len() - i,
    {
        if a[i] != b[i] {
            return false;
        }
        i = i + 1;
    }
    assert(a@ =~= b@);
    true
}

/// Whether a byte is a decimal digit.
pub open spec fn is_digit(b: u8) -> bool {
    48 <= b <= 57
}

/// Whether all bytes are decimal digits.
pub open spec fn all_digits(s: Seq<u8>) -> bool {
    forall|i: int| 0 <= i < s.len() ==> is_digit(#[trigger] s[i])
}

/// The number that decimal digits stand for.
pub open spec fn decimal_value(digits: Seq<u8>) -> nat
    decreases digits.len(),
{
    if digits.len() == 0 {
        0
    } else {
        10 * decimal_value(digits.drop_last()) + (digits.last() - 48) as nat
    }
}

/// A number as the standard library reads it: an optional plus sign, then decimal digits alone, at
/// least one of them, with a value that fits 64 bits.
pub open spec fn parse_u64_spec(s: Seq<u8>) -> Option<u64> {
    let digits = if s.len() > 0 && s[0] == 43 {
        s.skip(1)
    } else {
        s
    };
    if digits.len() > 0 && all_digits(digits) && decimal_value(digits) <= u64::MAX {
        Some(decimal_value(digits) as u64)
    } else {
        None
    }
}

/// More digits make no smaller number.
proof fn lemma_decimal_prefix(digits: Seq<u8>, n: int)
    requires
        all_digits(digits),
        0 <= n <= digits.len(),
    ensures
        decimal_value(digits.take(n)) <= decimal_value(digits),
    decreases digits.len() - n,
{
    if n < digits.len() {
        lemma_decimal_prefix(digits, n + 1);
        assert(digits.take(n + 1).drop_last() =~= digits.take(n));
        assert(is_digit(digits[n]));
    } else {
        assert(digits.take(n) =~= digits);
    }
}

/// Reads a decimal number.
pub fn parse_u64(s: &[u8]) -> (r: Option<u64>)
    ensures
        r == parse_u64_spec(s@),
{
    let start: usize = if s.len() > 0 && s[0] == 43 {
        1
    } else {
        0
    };
    let digits = slice_subrange(s, start, s.len());
    let ghost spec_digits = if s@.len() > 0 && s@[0] == 43 {
        s@.skip(1)
    } else {
        s@
    };
    assert(digits@ =~= spec_digits);
    if digits.len() == 0 {
        return None;
    }
    let mut value: u64 = 0;
    let mut i: usize = 0;
    while i < digits.len()
        invariant
            i <= digits@.len(),
            forall|j: int| 0 <= j < i ==> is_digit(#[trigger] digits@[j]),
            value == decimal_value(digits@.take(i as int)),
            digits@.len() > 0,
            parse_u64_spec(s@) == (if all_digits(digits@) && decimal_value(digits@) <= u64::MAX {
                Some(decimal_value(digits@) as u64)
            } else {
                None
            }),
        decreases digits@.len() - i,
    {
        let b: u8 = digits[i];
        if b < 48 || b > 57 {
            assert(!is_digit(digits@[i as int]));
            return None;
        }
        assert(digits@.take(i + 1).drop_last() =~= digits@.take(i as int));
        assert(digits@.take(i + 1).last() == b);
        let d: u64 = (b - 48) as u64;
        if value > (u64::MAX - d) / 10 {
            proof {
                if all_digits(digits@) {
                    lemma_decimal_prefix(digits@, i + 1);
                }
            }
            return None;
        }
        value = value * 10 + d;
        i = i + 1;
    }
    assert(digits@.take(i as int) =~= digits@);
    Some(value)
}

/// A decimal text as bytes: digits alone, with the value of the number.
proof fn lemma_number_text_digits(n: nat)
    ensures
        ({
            let text = number_text(n, 10);
            let bytes = Seq::new(text.len(), |i: int| text[i] as u8);
            &&& text.len() > 0
            &&& is_ascii_chars(text)
            &&& all_digits(bytes)
            &&& decimal_value(bytes) == n
        }),
    decreases n,
{
    let text = number_text(n, 10);
    let bytes = Seq::new(text.len(), |i: int| text[i] as u8);
    if n < 10 {
        assert(bytes.drop_last() =~= Seq::<u8>::empty());
        assert(decimal_value(bytes.drop_last()) == 0);
        assert(text[0] == digit_char(n));
    } else {
        let front = number_text(n / 10, 10);
        let front_bytes = Seq::new(front.len(), |i: int| front[i] as u8);
        lemma_number_text_digits(n / 10);
        assert(text.drop_last() =~= front);
        assert(bytes.drop_last() =~= front_bytes);
        assert(text.last() == digit_char(n % 10));
        assert forall|i: int| 0 <= i < bytes.len() implies is_digit(#[trigger] bytes[i]) by {
            if i < front.len() {
                assert(bytes[i] == front_bytes[i]);
            }
        }
        assert forall|i: int| 0 <= i < text.len() implies 0 <= #[trigger] text[i] as nat && text[i]
            as nat <= 127 by {
            if i < front.len() {
                assert(text[i] == front[i]);
            }
        }
    }
}

/// The bytes of a decimal text: digits alone, at least one, with the value of the number.
pub proof fn lemma_decimal_bytes(n: nat)
    ensures
        ({
            let bytes = encode_utf8(number_text(n, 10));
            &&& bytes.len() > 0
            &&& all_digits(bytes)
            &&& decimal_value(bytes) == n
        }),
{
    let text = number_text(n, 10);
    lemma_number_text_digits(n);
    is_ascii_chars_encode_utf8(text);
    assert(encode_utf8(text) =~= Seq::new(text.len(), |i: int| text[i] as u8));
}

/// A number that was written in decimal notation is read as itself.
pub proof fn law_number_is_read_back(n: u64)
    ensures
        parse_u64_spec(encode_utf8(number_text(n as nat, 10))) == Some(n),
{
    lemma_decimal_bytes(n as nat);
    assert(is_digit(encode_utf8(number_text(n as nat, 10))[0]));
}

/// A header value can be read as text if it holds nothing but visible ASCII, spaces and tabs.
pub proof fn law_text_is_visible(value: Seq<u8>)
    ensures
        is_text(value) <==> forall|i: int|
            0 <= i < value.len() ==> (32 <= #[trigger] value[i] && value[i] <= 126) || value[i] == 9,
{
    if is_text(value) {
        assert forall|i: int| 0 <= i < value.len() implies (32 <= #[trigger] value[i] && value[i]
            <= 126) || value[i] == 9 by {
            assert(is_visible(value[i]));
        }
    }
}

/// A cut loses nothing: both parts and the separator between them are the bytes, and the separator
/// does not stand in the first part. There is no cut only where there is no separator.
pub proof fn law_cut_once_loses_nothing(s: Seq<u8>, sep: u8)
    ensures
        match cut_once_spec(s, sep) {
            Some((before, after)) => s == before + seq![sep] + after && !before.contains(sep),
            None => !s.contains(sep),
        },
{
    s.index_of_first_ensures(sep);
    if let Some(i) = s.index_of_first(sep) {
        assert(s =~= s.take(i) + seq![sep] + s.skip(i + 1));
        let before = s.take(i);
        assert forall|j: int| 0 <= j < before.len() implies before[j] != sep by {
            assert(before[j] == s[j]);
        }
    }
}

/// Parts with a separator between each two of them.
pub open spec fn joined(parts: Seq<Seq<u8>>, sep: u8) -> Seq<u8>
    decreases parts.len(),
{
    if parts.len() == 0 {
        Seq::empty()
    } else if parts.len() == 1 {
        parts[0]
    } else {
        parts[0] + seq![sep] + joined(parts.skip(1), sep)
    }
}

/// Splitting loses nothing: the parts, joined again, are the bytes, and no part holds a separator.
pub proof fn law_split_loses_nothing(s: Seq<u8>, sep: u8)
    ensures
        split_spec(s, sep).len() > 0,
        joined(split_spec(s, sep), sep) == s,
        forall|i: int|
            0 <= i < split_spec(s, sep).len() ==> !(#[trigger] split_spec(s, sep)[i]).contains(sep),
    decreases s.len(),
{
    law_cut_once_loses_nothing(s, sep);
    let parts = split_spec(s, sep);
    match cut_once_spec(s, sep) {
        Some((before, after)) => {
            s.index_of_first_ensures(sep);
            law_split_loses_nothing(after, sep);
            let rest = split_spec(after, sep);
            assert(parts.skip(1) =~= rest);
            assert forall|i: int| 0 <= i < parts.len() implies !(#[trigger] parts[i]).contains(
                sep,
            ) by {
                if i > 0 {
                    assert(parts[i] == rest[i - 1]);
                }
            }
        },
        None => {},
    }
}

/// White space is what ASCII has of it: tab, line feed, form feed, carriage return and space.
pub proof fn law_white_space(b: u8)
    ensures
        is_space(b) <==> b == 9 || b == 10 || b == 12 || b == 13 || b == 32,
{
}

proof fn lemma_trim_start(s: Seq<u8>) -> (i: int)
    ensures
        0 <= i <= s.len(),
        trim_start_spec(s) == s.skip(i),
        forall|k: int| 0 <= k < i ==> is_space(#[trigger] s[k]),
        i < s.len() ==> !is_space(s[i]),
    decreases s.len(),
{
    if s.len() > 0 && is_space(s[0]) {
        let rest = s.skip(1);
        let j = lemma_trim_start(rest);
        assert(rest.skip(j) =~= s.skip(j + 1));
        assert forall|k: int| 0 <= k < j + 1 implies is_space(#[trigger] s[k]) by {
            if k > 0 {
                assert(rest[k - 1] == s[k]);
            }
        }
        if j < rest.len() {
            assert(rest[j] == s[j + 1]);
        }
        j + 1
    } else {
        assert(s.skip(0) =~= s);
        0
    }
}

proof fn lemma_trim_end(s: Seq<u8>) -> (j: int)
    ensures
        0 <= j <= s.len(),
        trim_end_spec(s) == s.take(j),
        forall|k: int| j <= k < s.len() ==> is_space(#[trigger] s[k]),
        0 < j ==> !is_space(s[j - 1]),
    decreases s.len(),
{
    if s.len() > 0 && is_space(s.last()) {
        let front = s.drop_last();
        let j = lemma_trim_end(front);
        assert(front.take(j) =~= s.take(j));
        assert forall|k: int| j <= k < s.len() implies is_space(#[trigger] s[k]) by {
            if k < front.len() {
                assert(front[k] == s[k]);
            }
        }
        if 0 < j {
            assert(front[j - 1] == s[j - 1]);
        }
        j
    } else {
        assert(s.take(s.len() as int) =~= s);
        s.len() as int
    }
}

/// Whether `t` is what `s` holds from `i` to `j`, with nothing but white space around it and none at
/// its ends.
pub open spec fn is_trimmed_at(s: Seq<u8>, t: Seq<u8>, i: int, j: int) -> bool {
    &&& 0 <= i <= j <= s.len()
    &&& t == s.subrange(i, j)
    &&& forall|k: int| 0 <= k < i || j <= k < s.len() ==> is_space(#[trigger] s[k])
    &&& i < j ==> !is_space(s[i]) && !is_space(s[j - 1])
}

/// Trimming takes away white space at both ends, all of it, and nothing else.
pub proof fn law_trim_takes_white_space_alone(s: Seq<u8>)
    ensures
        exists|i: int, j: int| is_trimmed_at(s, trim_spec(s), i, j),
{
    let i = lemma_trim_start(s);
    let front = s.skip(i);
    let j = lemma_trim_end(front);
    assert(front.take(j) =~= s.subrange(i, i + j));
    assert forall|k: int| 0 <= k < i || i + j <= k < s.len() implies is_space(#[trigger] s[k]) by {
        if k >= i {
            assert(front[k - i] == s[k]);
        }
    }
    if j > 0 {
        assert(front[0] == s[i]);
        assert(front[j - 1] == s[i + j - 1]);
    }
    assert(is_trimmed_at(s, trim_spec(s), i, i + j));
}

/// A number is read digit by digit: one digit is its value, and a digit behind a number makes ten
/// times that number and the digit, as long as 64 bits hold it.
pub proof fn law_number_is_read_by_digits(s: Seq<u8>, d: u8)
    requires
        forall|i: int| 0 <= i < s.len() ==> 48 <= #[trigger] s[i] && s[i] <= 57,
        48 <= d <= 57,
    ensures
        s.len() == 0 ==> parse_u64_spec(s.push(d)) == Some((d - 48) as u64),
        s.len() > 0 ==> parse_u64_spec(s.push(d)) == (match parse_u64_spec(s) {
            Some(n) => if n * 10 + (d - 48) <= 0xffff_ffff_ffff_ffff {
                Some((n * 10 + (d - 48)) as u64)
            } else {
                None
            },
            None => None,
        }),
{
    let t = s.push(d);
    assert(t.drop_last() =~= s);
    assert forall|i: int| 0 <= i < t.len() implies is_digit(#[trigger] t[i]) by {
        if i < s.len() {
            assert(t[i] == s[i]);
        }
    }
    assert forall|i: int| 0 <= i < s.len() implies is_digit(#[trigger] s[i]) by {}
    assert(t[0] != 43);
    if s.len() > 0 {
        assert(s[0] != 43);
    } else {
        assert(decimal_value(s) == 0);
    }
}

/// A plus sign may stand before the digits of a number, and nothing else may: without a digit, or
/// with any other byte, there is no number.
pub proof fn law_only_digits_are_numbers(s: Seq<u8>)
    ensures
        parse_u64_spec(Seq::empty()) is None,
        s.len() > 0 && s[0] != 43 ==> parse_u64_spec(seq![43u8] + s) == parse_u64_spec(s),
        s.len() == 0 || s[0] == 43 ==> parse_u64_spec(seq![43u8] + s) is None,
        (exists|i: int|
            0 <= i < s.len() && (#[trigger] s[i] < 48 || s[i] > 57) && !(i == 0 && s[i] == 43))
            ==> parse_u64_spec(s) is None,
{
    let t = seq![43u8] + s;
    assert(t.skip(1) =~= s);
    if s.len() > 0 && s[0] == 43 {
        assert(!is_digit(s[0]));
    }
    if exists|i: int|
        0 <= i < s.len() && (#[trigger] s[i] < 48 || s[i] > 57) && !(i == 0 && s[i] == 43) {
        let i = choose|i: int|
            0 <= i < s.len() && (#[trigger] s[i] < 48 || s[i] > 57) && !(i == 0 && s[i] == 43);
        if s[0] == 43 {
            assert(s.skip(1)[i - 1] == s[i]);
            assert(!is_digit(s.skip(1)[i - 1]));
        } else {
            assert(!is_digit(s[i]));
        }
    }
}

} // verus!
