//! Text helpers: cutting strings apart, comparing them, and writing numbers.

use vstd::prelude::*;
use vstd::slice::*;
use vstd::string::*;
use vstd::utf8::*;

verus! {

/// `s` cut at its first `sep`: what stands before it and what stands behind it.
pub open spec fn split_once_spec(s: Seq<char>, sep: char) -> Option<(Seq<char>, Seq<char>)> {
    match s.index_of_first(sep) {
        Some(i) => Some((s.take(i), s.skip(i + 1))),
        None => None,
    }
}

/// The cut is at the first separator and at no other place.
pub proof fn lemma_split_once_at(before: Seq<char>, sep: char, after: Seq<char>)
    requires
        !before.contains(sep),
    ensures
        split_once_spec(before + seq![sep] + after, sep) == Some((before, after)),
{
    let whole = before + seq![sep] + after;
    whole.index_of_first_ensures(sep);
    let at: int = before.len() as int;
    assert(whole[at] == sep);
    assert(whole.contains(sep));
    let i = whole.index_of_first(sep)->0;
    if i < at {
        assert(before[i] == whole[i]);
    }
    assert(whole.take(at) =~= before);
    assert(whole.skip(at + 1) =~= after);
}

/// The position of the first `sep` in `s`, counted in characters.
pub fn find_char(s: &str, sep: char) -> (r: Option<usize>)
    ensures
        match r {
            Some(i) => s@.index_of_first(sep) == Some(i as int),
            None => s@.index_of_first(sep) is None,
        },
{
    proof {
        s@.index_of_first_ensures(sep);
    }
    let total: usize = s.unicode_len();
    let mut i: usize = 0;
    for c in it: s.chars()
        invariant
            i == it.index(),
            it.seq() == s@,
            total == s@.len(),
            forall|j: int| 0 <= j < i ==> s@[j] != sep,
    {
        if c == sep {
            proof {
                s@.index_of_first_ensures(sep);
                assert(s@.contains(s@[i as int]));
            }
            return Some(i);
        }
        i = i + 1;
    }
    None
}

/// Cuts `s` at its first `sep`.
pub fn split_once<'a>(s: &'a str, sep: char) -> (r: Option<(&'a str, &'a str)>)
    ensures
        match r {
            Some((a, b)) => split_once_spec(s@, sep) == Some((a@, b@)),
            None => split_once_spec(s@, sep) is None,
        },
{
    match find_char(s, sep) {
        Some(i) => {
            proof {
                s@.index_of_first_ensures(sep);
            }
            let n: usize = s.unicode_len();
            let a = s.substring_char(0, i);
            let b = s.substring_char(i + 1, n);
            Some((a, b))
        },
        None => None,
    }
}

/// Whether two texts are the same.
pub fn text_eq(a: &str, b: &str) -> (r: bool)
    ensures
        r == (a@ == b@),
{
    let x: String = a.to_owned();
    let y: String = b.to_owned();
    x == y
}

/// Whether all bytes are ASCII.
pub open spec fn is_ascii_bytes(bytes: Seq<u8>) -> bool {
    forall|i: int| 0 <= i < bytes.len() ==> #[trigger] bytes[i] < 128
}

/// ASCII bytes read as characters.
pub open spec fn ascii_chars(bytes: Seq<u8>) -> Seq<char> {
    Seq::new(bytes.len(), |i: int| bytes[i] as char)
}

/// ASCII bytes are the UTF-8 form of their characters, and of no other text.
pub proof fn lemma_ascii_utf8(bytes: Seq<u8>)
    requires
        is_ascii_bytes(bytes),
    ensures
        valid_utf8(bytes),
        encode_utf8(ascii_chars(bytes)) == bytes,
        decode_utf8(bytes) == ascii_chars(bytes),
{
    let chars = ascii_chars(bytes);
    assert(is_ascii_chars(chars));
    is_ascii_chars_encode_utf8(chars);
    assert(encode_utf8(chars) =~= bytes);
    encode_utf8_valid_utf8(chars);
    encode_utf8_decode_utf8(chars);
}

/// Calls `String::from_utf8` of std: bytes that are UTF-8 become the text that they encode, and
/// other bytes are refused.
#[verifier::external_body]
fn string_from_utf8(bytes: Vec<u8>) -> (r: Option<String>)
    ensures
        r is Some <==> valid_utf8(bytes@),
        r matches Some(s) ==> encode_utf8(s@) == bytes@,
{
    String::from_utf8(bytes).ok()
}

/// ASCII bytes as text.
pub fn utf8_text(bytes: &[u8]) -> (r: String)
    requires
        is_ascii_bytes(bytes@),
    ensures
        r@ == ascii_chars(bytes@),
{
    proof {
        lemma_ascii_utf8(bytes@);
    }
    match string_from_utf8(slice_to_vec(bytes)) {
        Some(s) => {
            proof {
                encode_utf8_decode_utf8(s@);
            }
            s
        },
        None => String::new(),
    }
}

/// The character for a digit below 16.
pub open spec fn digit_char(d: nat) -> char {
    if d < 10 {
        (48 + d) as char
    } else {
        (97 + d - 10) as char
    }
}

/// A number in positional notation, without leading zeros.
pub open spec fn number_text(n: nat, radix: nat) -> Seq<char>
    decreases n,
{
    if radix < 2 || n < radix {
        seq![digit_char(n)]
    } else {
        proof {
            assert(n / radix < n) by (nonlinear_arith)
                requires
                    2 <= radix <= n,
            ;
        }
        number_text(n / radix, radix).push(digit_char(n % radix))
    }
}

/// The value of a digit.
pub open spec fn digit_value(c: char) -> nat {
    if c <= '9' {
        (c as u32 - 48) as nat
    } else {
        (c as u32 - 87) as nat
    }
}

/// The number that a text in positional notation stands for.
pub open spec fn number_value(text: Seq<char>, radix: nat) -> nat
    decreases text.len(),
{
    if text.len() == 0 {
        0
    } else {
        radix * number_value(text.drop_last(), radix) + digit_value(text.last())
    }
}

/// A number that was written down reads back as itself, so no two numbers have the same text.
pub proof fn law_number_text_reads_back(n: nat, radix: nat)
    requires
        2 <= radix <= 16,
    ensures
        number_value(number_text(n, radix), radix) == n,
    decreases n,
{
    let text = number_text(n, radix);
    if n < radix {
        assert(text.drop_last() =~= Seq::<char>::empty());
        assert(number_value(text.drop_last(), radix) == 0);
        assert(radix * 0 == 0);
        assert(digit_value(digit_char(n)) == n);
    } else {
        let high = n / radix;
        let low = n % radix;
        assert(high < n && low < radix && radix * high + low == n) by (nonlinear_arith)
            requires
                2 <= radix <= n,
                high == n / radix,
                low == n % radix,
        ;
        law_number_text_reads_back(high, radix);
        assert(text.drop_last() =~= number_text(high, radix));
        assert(text.last() == digit_char(low));
        assert(digit_value(digit_char(low)) == low);
    }
}

fn digit_text(d: u8) -> (r: &'static str)
    requires
        d < 16,
    ensures
        r@ == seq![digit_char(d as nat)],
{
    proof {
        reveal_strlit("0");
        reveal_strlit("1");
        reveal_strlit("2");
        reveal_strlit("3");
        reveal_strlit("4");
        reveal_strlit("5");
        reveal_strlit("6");
        reveal_strlit("7");
        reveal_strlit("8");
        reveal_strlit("9");
        reveal_strlit("a");
        reveal_strlit("b");
        reveal_strlit("c");
        reveal_strlit("d");
        reveal_strlit("e");
        reveal_strlit("f");
    }
    let r = match d {
        0 => "0",
        1 => "1",
        2 => "2",
        3 => "3",
        4 => "4",
        5 => "5",
        6 => "6",
        7 => "7",
        8 => "8",
        9 => "9",
        10 => "a",
        11 => "b",
        12 => "c",
        13 => "d",
        14 => "e",
        _ => "f",
    };
    assert(r@ =~= seq![digit_char(d as nat)]);
    r
}

/// Writes a number in decimal or in hexadecimal notation.
pub fn write_number(n: u128, radix: u8) -> (r: String)
    requires
        2 <= radix <= 16,
    ensures
        r@ == number_text(n as nat, radix as nat),
    decreases n,
{
    if n < radix as u128 {
        digit_text(n as u8).to_owned()
    } else {
        let base: u128 = radix as u128;
        assert(n / base < n) by (nonlinear_arith)
            requires
                2 <= base <= n,
        ;
        assert(n % base < base) by (nonlinear_arith)
            requires
                2 <= base,
        ;
        let mut text = write_number(n / base, radix);
        text.append(digit_text((n % base) as u8));
        assert(text@ =~= number_text(n as nat, radix as nat));
        text
    }
}

/// A cut loses nothing: both parts and the separator between them are the text, and the separator
/// does not stand in the first part. There is no cut only where there is no separator.
pub proof fn law_split_once_loses_nothing(s: Seq<char>, sep: char)
    ensures
        match split_once_spec(s, sep) {
            Some((before, after)) => s == before + seq![sep] + after && !before.contains(sep),
            None => !s.contains(sep),
        },
{
    s.index_of_first_ensures(sep);
    if let Some(i) = s.index_of_first(sep) {
        assert(s =~= s.take(i) + seq![sep] + s.skip(i + 1));
        let before = s.take(i);
        assert forall|j: int| 0 <= j < before.len() implies before[j] != sep by {
            assert(before[j] == s[j]);
        }
    }
}

/// The digits below ten are written `0` to `9` and those above them `a` to `f`; and a number is
/// written as the number of its higher digits, which is not zero, and then its last digit.
pub proof fn law_number_text_by_digits(high: nat, low: nat, radix: nat)
    requires
        2 <= radix <= 16,
        low < radix,
    ensures
        number_text(low, radix) == seq![
            if low < 10 {
                ('0' as u32 + low) as char
            } else {
                ('a' as u32 + low - 10) as char
            },
        ],
        high > 0 ==> number_text(high * radix + low, radix) == number_text(high, radix)
            + number_text(low, radix),
{
    if high > 0 {
        let n = high * radix + low;
        assert(n >= radix && n / radix == high && n % radix == low) by (nonlinear_arith)
            requires
                high > 0,
                2 <= radix,
                low < radix,
                n == high * radix + low,
        ;
        assert(number_text(n, radix) =~= number_text(high, radix) + number_text(low, radix));
    }
}

/// ASCII bytes become as many characters, each with the code of its byte.
pub proof fn law_ascii_chars_keep_codes(bytes: Seq<u8>)
    ensures
        ascii_chars(bytes).len() == bytes.len(),
        forall|i: int| 0 <= i < bytes.len() ==> #[trigger] ascii_chars(bytes)[i] == bytes[i] as char,
{
}

} // verus!
