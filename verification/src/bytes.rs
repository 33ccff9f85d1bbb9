//! Byte strings: what Git and the file system hand over before anything is
//! known about their encoding.

use vstd::prelude::*;
use vstd::slice::slice_subrange;
use vstd::slice::slice_to_vec;

use crate::text;

verus! {

/// What `String::from_utf8_lossy` returns.
pub uninterp spec fn lossy_result(bytes: Seq<u8>) -> Seq<char>;

/// The text that a byte string stands for: what it encodes, if it is UTF-8, and
/// otherwise that with the invalid parts replaced.
pub open spec fn utf8_lossy(bytes: Seq<u8>) -> Seq<char> {
    if vstd::utf8::valid_utf8(bytes) {
        vstd::utf8::decode_utf8(bytes)
    } else {
        lossy_result(bytes)
    }
}

/// `String::from_utf8_lossy` decodes UTF-8 and replaces what is invalid. Of the
/// result this claims that it depends on the bytes alone, and that valid input
/// is decoded as it stands; where the replacement characters fall is not said.
#[verifier::external_body]
pub(crate) fn lossy_text(bytes: &[u8]) -> (text: String)
    ensures
        text@ == lossy_result(bytes@),
        text@ == utf8_lossy(bytes@),
{
    String::from_utf8_lossy(bytes).into_owned()
}

/// The text that a byte string encodes, if it is UTF-8.
pub open spec fn utf8_text(bytes: Seq<u8>) -> Option<Seq<char>> {
    if vstd::utf8::valid_utf8(bytes) {
        Some(vstd::utf8::decode_utf8(bytes))
    } else {
        None
    }
}

/// `String::from_utf8` decodes bytes that are UTF-8 and refuses all others.
#[verifier::external_body]
pub(crate) fn exact_text(bytes: &[u8]) -> (text: Option<String>)
    ensures
        match text {
            Some(text) => utf8_text(bytes@) == Some(text@),
            None => utf8_text(bytes@) is None,
        },
{
    String::from_utf8(bytes.to_vec()).ok()
}

/// Words as the arguments of a program.
pub open spec fn arguments(words: Seq<Seq<char>>) -> Seq<Seq<u8>> {
    words.map_values(|word: Seq<char>| vstd::utf8::encode_utf8(word))
}

pub open spec fn word_views(list: Seq<&str>) -> Seq<Seq<char>> {
    list.map_values(|word: &str| word@)
}

pub fn words(list: &[&str]) -> (out: Vec<Vec<u8>>)
    ensures
        byte_views(out@) == arguments(word_views(list@)),
{
    let ghost all = arguments(word_views(list@));
    let mut out: Vec<Vec<u8>> = Vec::new();
    let mut i: usize = 0;
    assert(byte_views(out@) =~= all.take(0));
    while i < list.len()
        invariant
            i <= list@.len(),
            all == arguments(word_views(list@)),
            byte_views(out@) == all.take(i as int),
        decreases list@.len() - i,
    {
        push_word(&mut out, list[i]);
        assert(all.take(i + 1) =~= all.take(i as int).push(all[i as int]));
        i = i + 1;
    }
    assert(all.take(i as int) =~= all);
    out
}

pub fn push_word(out: &mut Vec<Vec<u8>>, word: &str)
    ensures
        byte_views(final(out)@) == byte_views(old(out)@).push(vstd::utf8::encode_utf8(word@)),
{
    out.push(utf8_of(word));
    assert(byte_views(out@) =~= byte_views(old(out)@).push(vstd::utf8::encode_utf8(word@)));
}

pub fn push_argument(out: &mut Vec<Vec<u8>>, argument: &[u8])
    ensures
        byte_views(final(out)@) == byte_views(old(out)@).push(argument@),
{
    out.push(copy_bytes(argument));
    assert(byte_views(out@) =~= byte_views(old(out)@).push(argument@));
}

/// The byte strings that a list holds.
pub open spec fn byte_views(list: Seq<Vec<u8>>) -> Seq<Seq<u8>> {
    list.map_values(|b: Vec<u8>| b@)
}

pub fn same_bytes(a: &[u8], b: &[u8]) -> (same: bool)
    ensures
        same == (a@ == b@),
{
    if a.len() != b.len() {
        return false;
    }
    let mut i: usize = 0;
    while i < a.len()
        invariant
            a@.len() == b@.len(),
            i <= a@.len(),
            forall|j: int| 0 <= j < i ==> a@[j] == b@[j],
        decreases a@.len() - i,
    {
        if a[i] != b[i] {
            return false;
        }
        i = i + 1;
    }
    assert(a@ =~= b@);
    true
}

pub fn copy_bytes(bytes: &[u8]) -> (out: Vec<u8>)
    ensures
        out@ == bytes@,
{
    slice_to_vec(bytes)
}

/// The UTF-8 encoding of a text.
pub fn utf8_of(text: &str) -> (out: Vec<u8>)
    ensures
        out@ == vstd::utf8::encode_utf8(text@),
{
    slice_to_vec(text.as_bytes())
}

pub fn push_bytes(out: &mut Vec<u8>, more: &[u8])
    ensures
        final(out)@ == old(out)@ + more@,
{
    let mut i: usize = 0;
    while i < more.len()
        invariant
            i <= more@.len(),
            out@ == old(out)@ + more@.take(i as int),
        decreases more@.len() - i,
    {
        out.push(more[i]);
        proof {
            assert(more@.take(i + 1) =~= more@.take(i as int).push(more@[i as int]));
        }
        i = i + 1;
    }
    assert(more@.take(i as int) =~= more@);
}

/// The first position at or after `from` that holds `x`, or the length.
pub fn find_byte(bytes: &[u8], from: usize, x: u8) -> (at: usize)
    requires
        from <= bytes@.len(),
    ensures
        from <= at <= bytes@.len(),
        at == from + text::find(bytes@.skip(from as int), x),
{
    let mut i: usize = from;
    while i < bytes.len() && bytes[i] != x
        invariant
            from <= i <= bytes@.len(),
            forall|j: int| from <= j < i ==> bytes@[j] != x,
        decreases bytes@.len() - i,
    {
        i = i + 1;
    }
    proof {
        text::lemma_find_is(bytes@.skip(from as int), x, i - from);
    }
    i
}

pub fn split_bytes(bytes: &[u8], x: u8) -> (out: Vec<Vec<u8>>)
    ensures
        byte_views(out@) == text::split(bytes@, x),
{
    let mut out: Vec<Vec<u8>> = Vec::new();
    let mut from: usize = 0;
    assert(bytes@.skip(0) =~= bytes@);
    assert(byte_views(out@) + text::split(bytes@.skip(0), x) =~= text::split(bytes@, x));
    loop
        invariant
            from <= bytes@.len(),
            byte_views(out@) + text::split(bytes@.skip(from as int), x) == text::split(bytes@, x),
        decreases bytes@.len() - from,
    {
        let at: usize = find_byte(bytes, from, x);
        let piece: Vec<u8> = slice_to_vec(slice_subrange(bytes, from, at));
        let ghost rest = bytes@.skip(from as int);
        let ghost before = byte_views(out@);
        out.push(piece);
        proof {
            text::lemma_find(rest, x);
            assert(byte_views(out@) =~= before.push(piece@));
            assert(piece@ =~= rest.take(at - from));
        }
        if at >= bytes.len() {
            proof {
                assert(piece@ =~= rest);
                assert(before + text::split(rest, x) =~= byte_views(out@));
            }
            return out;
        }
        from = at + 1;
        proof {
            assert(bytes@.skip(from as int) =~= rest.skip(text::find(rest, x) + 1));
            assert(before + (seq![piece@] + text::split(bytes@.skip(from as int), x)) =~= byte_views(out@)
                + text::split(bytes@.skip(from as int), x));
        }
    }
}

/// The bytes after `prefix`, if they start with it.
pub fn stripped_bytes(bytes: &[u8], prefix: &[u8]) -> (out: Option<Vec<u8>>)
    ensures
        match out {
            Some(rest) => text::starts_with(bytes@, prefix@) && rest@ == bytes@.skip(
                prefix@.len() as int,
            ),
            None => !text::starts_with(bytes@, prefix@),
        },
{
    if prefix.len() > bytes.len() {
        return None;
    }
    let head: &[u8] = slice_subrange(bytes, 0, prefix.len());
    assert(head@ =~= bytes@.take(prefix@.len() as int));
    if same_bytes(head, prefix) {
        let rest: &[u8] = slice_subrange(bytes, prefix.len(), bytes.len());
        assert(rest@ =~= bytes@.skip(prefix@.len() as int));
        Some(slice_to_vec(rest))
    } else {
        None
    }
}

proof fn lemma_scalar_bytes(c: u32)
    by (bit_vector)
    requires
        c != 0,
    ensures
        c <= 0x7f ==> (c & 0x7F) as u8 != 0,
        0xC0 | ((c >> 6) & 0x1F) as u8 != 0,
        0xE0 | ((c >> 12) & 0x0F) as u8 != 0,
        0xF0 | ((c >> 18) & 0x7) as u8 != 0,
        0x80 | (c & 0x3F) as u8 != 0,
        0x80 | ((c >> 6) & 0x3F) as u8 != 0,
        0x80 | ((c >> 12) & 0x3F) as u8 != 0,
{
}

/// A text without a NUL is encoded without a zero byte.
pub proof fn lemma_nul_free_text(chars: Seq<char>)
    requires
        !chars.contains('\0'),
    ensures
        !vstd::utf8::encode_utf8(chars).contains(0u8),
    decreases chars.len(),
{
    if chars.len() > 0 {
        let first = chars[0];
        assert(chars.contains(first));
        let rest = chars.drop_first();
        assert(!rest.contains('\0')) by {
            if rest.contains('\0') {
                let i = choose|i: int| 0 <= i < rest.len() && rest[i] == '\0';
                assert(chars[i + 1] == '\0');
            }
        }
        lemma_nul_free_text(rest);
        let c = first as u32;
        vstd::utf8::char_u32_cast(first, c);
        assert(first != '\0');
        lemma_scalar_bytes(c);
        let head = vstd::utf8::encode_scalar(c);
        let tail = vstd::utf8::encode_utf8(rest);
        assert(forall|i: int| 0 <= i < head.len() ==> head[i] != 0u8);
        let all = vstd::utf8::encode_utf8(chars);
        assert forall|i: int| 0 <= i < all.len() implies all[i] != 0u8 by {
            if i >= head.len() {
                assert(all[i] == tail[i - head.len()]);
                assert(tail.contains(tail[i - head.len()]));
            }
        }
    }
}

pub proof fn lemma_concat_free(a: Seq<u8>, b: Seq<u8>)
    requires
        !a.contains(0u8),
        !b.contains(0u8),
    ensures
        !(a + b).contains(0u8),
{
    let all = a + b;
    assert forall|i: int| 0 <= i < all.len() implies all[i] != 0u8 by {
        if i < a.len() {
            assert(a.contains(a[i]));
        } else {
            assert(all[i] == b[i - a.len()]);
            assert(b.contains(b[i - a.len()]));
        }
    }
}

proof fn lemma_low_bits(c: u32)
    by (bit_vector)
    requires
        c <= 0x7f,
    ensures
        (c & 0x7F) as u8 == c as u8,
{
}

/// The encoding of a text that starts with an ASCII character starts with its code.
pub proof fn lemma_first_byte(chars: Seq<char>)
    requires
        chars.len() > 0,
        chars[0] as u32 <= 0x7f,
    ensures
        vstd::utf8::encode_utf8(chars).len() > 0,
        vstd::utf8::encode_utf8(chars)[0] == chars[0] as u32 as u8,
{
    lemma_low_bits(chars[0] as u32);
}

/// Texts are encoded one behind the other.
pub proof fn lemma_encode_concat(a: Seq<char>, b: Seq<char>)
    ensures
        vstd::utf8::encode_utf8(a + b) == vstd::utf8::encode_utf8(a) + vstd::utf8::encode_utf8(b),
    decreases a.len(),
{
    if a.len() == 0 {
        assert(a + b =~= b);
    } else {
        lemma_encode_concat(a.drop_first(), b);
        assert((a + b).drop_first() =~= a.drop_first() + b);
    }
    assert(vstd::utf8::encode_utf8(a + b) =~= vstd::utf8::encode_utf8(a)
        + vstd::utf8::encode_utf8(b));
}

proof fn lemma_high_bits(c: u32)
    by (bit_vector)
    ensures
        0xC0 | ((c >> 6) & 0x1F) as u8 > 0x7f,
        0xE0 | ((c >> 12) & 0x0F) as u8 > 0x7f,
        0xF0 | ((c >> 18) & 0x7) as u8 > 0x7f,
{
}

/// A text starts with an ASCII text exactly if its encoding does, and what follows
/// is the encoding of what follows.
pub proof fn lemma_encoded_prefix(chars: Seq<char>, prefix: Seq<char>)
    requires
        vstd::utf8::is_ascii_chars(prefix),
    ensures
        text::starts_with(vstd::utf8::encode_utf8(chars), vstd::utf8::encode_utf8(prefix))
            <==> text::starts_with(chars, prefix),
        text::starts_with(chars, prefix) ==> vstd::utf8::encode_utf8(chars).skip(
            vstd::utf8::encode_utf8(prefix).len() as int,
        ) == vstd::utf8::encode_utf8(chars.skip(prefix.len() as int)),
{
    let all = vstd::utf8::encode_utf8(chars);
    let head = vstd::utf8::encode_utf8(prefix);
    if text::starts_with(chars, prefix) {
        let rest = chars.skip(prefix.len() as int);
        assert(chars =~= prefix + rest);
        lemma_encode_concat(prefix, rest);
        assert(all.take(head.len() as int) =~= head);
        assert(all.skip(head.len() as int) =~= vstd::utf8::encode_utf8(rest));
    } else if text::starts_with(all, head) {
        lemma_decoded_prefix(chars, prefix);
    }
}

proof fn lemma_decoded_prefix(chars: Seq<char>, prefix: Seq<char>)
    requires
        vstd::utf8::is_ascii_chars(prefix),
        text::starts_with(vstd::utf8::encode_utf8(chars), vstd::utf8::encode_utf8(prefix)),
    ensures
        text::starts_with(chars, prefix),
    decreases prefix.len(),
{
    let all = vstd::utf8::encode_utf8(chars);
    let head = vstd::utf8::encode_utf8(prefix);
    if prefix.len() == 0 {
        assert(chars.take(0) =~= prefix);
    } else {
        let later = vstd::utf8::encode_utf8(prefix.drop_first());
        lemma_first_byte(prefix);
        assert(head =~= seq![head[0]] + later);
        assert(all.take(head.len() as int)[0] == head[0]);
        let c = chars[0] as u32;
        vstd::utf8::char_u32_cast(chars[0], c);
        lemma_high_bits(c);
        assert(all[0] == vstd::utf8::encode_scalar(c)[0]);
        assert(c <= 0x7f);
        lemma_first_byte(chars);
        assert(chars[0] == prefix[0]);
        let rest = vstd::utf8::encode_utf8(chars.drop_first());
        assert(all =~= seq![all[0]] + rest);
        assert(rest.take(later.len() as int) =~= all.take(head.len() as int).skip(1));
        assert(head.skip(1) =~= later);
        lemma_decoded_prefix(chars.drop_first(), prefix.drop_first());
        assert(chars.take(prefix.len() as int) =~= seq![chars[0]] + chars.drop_first().take(
            prefix.len() - 1,
        ));
        assert(prefix =~= seq![prefix[0]] + prefix.drop_first());
    }
}

/// What encodes a text is decoded to it.
pub proof fn lemma_lossless(chars: Seq<char>)
    ensures
        utf8_lossy(vstd::utf8::encode_utf8(chars)) == chars,
{
    vstd::utf8::encode_utf8_valid_utf8(chars);
    vstd::utf8::encode_utf8_decode_utf8(chars);
}

pub proof fn lemma_nul_byte()
    ensures
        vstd::utf8::encode_utf8(seq!['\0']) == seq![0u8],
{
    let nul = seq!['\0'];
    lemma_first_byte(nul);
    assert(nul.drop_first() =~= Seq::<char>::empty());
    assert(vstd::utf8::encode_utf8(nul.drop_first()) =~= Seq::<u8>::empty());
    assert(vstd::utf8::encode_utf8(nul) =~= seq![0u8]);
}

/// The encoding of a text that ends with an ASCII character ends with its code.
pub proof fn lemma_last_byte(chars: Seq<char>)
    requires
        chars.len() > 0,
        chars.last() as u32 <= 0x7f,
    ensures
        vstd::utf8::encode_utf8(chars).len() > 0,
        vstd::utf8::encode_utf8(chars).last() == chars.last() as u32 as u8,
{
    let last = seq![chars.last()];
    assert(chars =~= chars.drop_last() + last);
    lemma_encode_concat(chars.drop_last(), last);
    lemma_first_byte(last);
    assert(last.drop_first() =~= Seq::<char>::empty());
    assert(vstd::utf8::encode_utf8(last.drop_first()) =~= Seq::<u8>::empty());
    assert(vstd::utf8::encode_utf8(last).len() == 1);
}

pub proof fn lemma_slash()
    ensures
        vstd::utf8::encode_utf8(seq!['/']) == seq!['/' as u8],
{
    let slash = seq!['/'];
    lemma_first_byte(slash);
    assert(slash.drop_first() =~= Seq::<char>::empty());
    assert(vstd::utf8::encode_utf8(slash.drop_first()) =~= Seq::<u8>::empty());
    assert(vstd::utf8::encode_utf8(slash) =~= seq!['/' as u8]);
}

/// Bytes that encode a text are read as that text, and all others as none.
pub proof fn encoded_texts_are_read_back(text: Seq<char>, bytes: Seq<u8>)
    ensures
        utf8_text(vstd::utf8::encode_utf8(text)) == Some(text),
        utf8_text(bytes) matches Some(read) ==> vstd::utf8::encode_utf8(read) == bytes,
        utf8_text(bytes) is None <==> !vstd::utf8::valid_utf8(bytes),
{
    vstd::utf8::encode_utf8_valid_utf8(text);
    vstd::utf8::encode_utf8_decode_utf8(text);
    if vstd::utf8::valid_utf8(bytes) {
        vstd::utf8::decode_utf8_encode_utf8(bytes);
    }
}

} // verus!
