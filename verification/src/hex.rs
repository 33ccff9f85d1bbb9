//! Hexadecimal text for byte strings that no line format could hold as they are.

use vstd::prelude::*;

use crate::text;
use crate::text::{chars_of, digit};

verus! {

/// Two lower-case hexadecimal digits for each byte.
pub open spec fn hex(bytes: Seq<u8>) -> Seq<char>
    decreases bytes.len(),
{
    if bytes.len() == 0 {
        Seq::empty()
    } else {
        hex(bytes.drop_last()).push(text::digit_char(bytes.last() as int / 16)).push(
            text::digit_char(bytes.last() as int % 16),
        )
    }
}

/// The value of a hexadecimal digit in either case.
pub open spec fn digit_value(c: char) -> Option<u8> {
    if '0' <= c <= '9' {
        Some((c as u32 - 0x30) as u8)
    } else if 'a' <= c <= 'f' {
        Some((c as u32 - 0x61 + 10) as u8)
    } else if 'A' <= c <= 'F' {
        Some((c as u32 - 0x41 + 10) as u8)
    } else {
        None
    }
}

/// The bytes that a text of hexadecimal digit pairs stands for.
pub open spec fn unhex(text: Seq<char>) -> Option<Seq<u8>>
    decreases text.len(),
{
    if text.len() == 0 {
        Some(Seq::empty())
    } else if text.len() == 1 {
        None
    } else {
        match (
            unhex(text.take(text.len() - 2)),
            digit_value(text[text.len() - 2]),
            digit_value(text[text.len() - 1]),
        ) {
            (Some(before), Some(high), Some(low)) => Some(before.push((high * 16 + low) as u8)),
            _ => None,
        }
    }
}

pub proof fn lemma_digit_value(value: int)
    requires
        0 <= value < 16,
    ensures
        digit_value(text::digit_char(value)) == Some(value as u8),
{
}

/// Decoding gives back exactly the bytes that were encoded.
pub proof fn lemma_hex_round_trip(bytes: Seq<u8>)
    ensures
        unhex(hex(bytes)) == Some(bytes),
    decreases bytes.len(),
{
    if bytes.len() > 0 {
        lemma_hex_round_trip(bytes.drop_last());
        let text = hex(bytes);
        let high = bytes.last() as int / 16;
        let low = bytes.last() as int % 16;
        lemma_digit_value(high);
        lemma_digit_value(low);
        assert(text.take(text.len() - 2) =~= hex(bytes.drop_last()));
        assert((high as u8 * 16 + low as u8) as u8 == bytes.last());
        assert(bytes.drop_last().push(bytes.last()) =~= bytes);
    }
}

/// Encoded bytes are hexadecimal digits and nothing else.
pub proof fn lemma_hex_digits(bytes: Seq<u8>)
    ensures
        hex(bytes).len() == 2 * bytes.len(),
        forall|i: int| 0 <= i < hex(bytes).len() ==> digit_value(#[trigger] hex(bytes)[i]) is Some,
    decreases bytes.len(),
{
    if bytes.len() > 0 {
        lemma_hex_digits(bytes.drop_last());
        lemma_digit_value(bytes.last() as int / 16);
        lemma_digit_value(bytes.last() as int % 16);
    }
}

/// A text of odd length stands for no bytes.
pub proof fn lemma_unhex_even(text: Seq<char>)
    ensures
        unhex(text) is Some ==> text.len() == 2 * unhex(text)->0.len(),
    decreases text.len(),
{
    if text.len() > 1 {
        lemma_unhex_even(text.take(text.len() - 2));
    }
}

pub fn hex_digit(c: char) -> (value: Option<u8>)
    ensures
        value == digit_value(c),
        value matches Some(v) ==> v < 16,
{
    let code: u32 = c as u32;
    if '0' <= c && c <= '9' {
        Some((code - 0x30) as u8)
    } else if 'a' <= c && c <= 'f' {
        Some((code - 0x61 + 10) as u8)
    } else if 'A' <= c && c <= 'F' {
        Some((code - 0x41 + 10) as u8)
    } else {
        None
    }
}

pub fn encode_path_hex(path: &[u8]) -> (out: String)
    ensures
        out@ == hex(path@),
{
    let mut out: String = String::new();
    let mut i: usize = 0;
    assert(path@.take(0) =~= Seq::<u8>::empty());
    while i < path.len()
        invariant
            i <= path@.len(),
            out@ == hex(path@.take(i as int)),
        decreases path@.len() - i,
    {
        let byte: u8 = path[i];
        out.push(digit(byte / 16));
        out.push(digit(byte % 16));
        assert(path@.take(i + 1).drop_last() =~= path@.take(i as int));
        i = i + 1;
    }
    assert(path@.take(i as int) =~= path@);
    out
}

pub fn decode_path_hex(value: &str) -> (out: Option<Vec<u8>>)
    ensures
        match out {
            Some(bytes) => unhex(value@) == Some(bytes@),
            None => unhex(value@) is None,
        },
{
    let chars: Vec<char> = chars_of(value);
    if chars.len() % 2 != 0 {
        proof {
            lemma_unhex_even(value@);
        }
        return None;
    }
    let mut out: Vec<u8> = Vec::new();
    let mut i: usize = 0;
    assert(chars@.take(0) =~= Seq::<char>::empty());
    assert(out@ =~= Seq::<u8>::empty());
    while i < chars.len()
        invariant
            chars@ == value@,
            chars@.len() % 2 == 0,
            i % 2 == 0,
            i <= chars@.len(),
            unhex(chars@.take(i as int)) == Some(out@),
        decreases chars@.len() - i,
    {
        let ghost next = chars@.take(i + 2);
        assert(next.take(next.len() - 2) =~= chars@.take(i as int));
        assert(next[next.len() - 2] == chars@[i as int]);
        assert(next[next.len() - 1] == chars@[i + 1]);
        match (hex_digit(chars[i]), hex_digit(chars[i + 1])) {
            (Some(high), Some(low)) => {
                out.push(high * 16 + low);
            },
            _ => {
                proof {
                    lemma_unhex_prefix(chars@, i + 2);
                }
                return None;
            },
        }
        i = i + 2;
    }
    assert(chars@.take(i as int) =~= chars@);
    Some(out)
}

/// One bad pair spoils the whole text.
proof fn lemma_unhex_prefix(text: Seq<char>, n: int)
    requires
        0 <= n <= text.len(),
        n % 2 == 0,
        text.len() % 2 == 0,
        unhex(text.take(n)) is None,
    ensures
        unhex(text) is None,
    decreases text.len(),
{
    if n < text.len() {
        let shorter = text.take(text.len() - 2);
        assert(shorter.take(n) =~= text.take(n));
        lemma_unhex_prefix(shorter, n);
    } else {
        assert(text.take(n) =~= text);
    }
}

/// A byte is written with two digits, the higher first, behind those before it.
pub proof fn bytes_are_written_with_two_digits(bytes: Seq<u8>, byte: u8)
    ensures
        hex(Seq::empty()) == Seq::<char>::empty(),
        hex(bytes.push(byte)) == hex(bytes).push(text::digit_char(byte as int / 16)).push(
            text::digit_char(byte as int % 16),
        ),
{
    assert(bytes.push(byte).drop_last() =~= bytes);
}

/// The digits are these, in either case, and nothing else is one.
pub proof fn digits_are_these(c: char, value: int)
    ensures
        0 <= value < 16 ==> digit_value("0123456789abcdef"@[value]) == Some(value as u8),
        0 <= value < 16 ==> digit_value("0123456789ABCDEF"@[value]) == Some(value as u8),
        0 <= value < 16 ==> text::digit_char(value) == "0123456789abcdef"@[value],
        digit_value(c) is Some ==> "0123456789abcdef"@.contains(c) || "0123456789ABCDEF"@.contains(c),
{
    reveal_strlit("0123456789abcdef");
    reveal_strlit("0123456789ABCDEF");
    let small = "0123456789abcdef"@;
    let large = "0123456789ABCDEF"@;
    if digit_value(c) is Some {
        let at = (digit_value(c)->0) as int;
        assert(small[at] == c || large[at] == c);
    }
}

/// A pair of digits stands for one byte, behind those of the pairs before it, and a text
/// with anything else in it stands for none.
pub proof fn pairs_of_digits_are_bytes(text: Seq<char>, high: char, low: char)
    ensures
        unhex(Seq::empty()) == Some(Seq::<u8>::empty()),
        unhex(seq![low]) is None,
        unhex(text.push(high).push(low)) == (if unhex(text) is Some && digit_value(high) is Some
            && digit_value(low) is Some {
            Some((unhex(text)->0).push((digit_value(high)->0 * 16 + digit_value(low)->0) as u8))
        } else {
            None
        }),
{
    let whole = text.push(high).push(low);
    assert(whole.take(whole.len() - 2) =~= text);
}

} // verus!
