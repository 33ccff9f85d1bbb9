//! Text as a sequence of characters: the searching, splitting and trimming
//! that the formats of this crate are made of.

use vstd::prelude::*;

verus! {

/// `String::push` appends the character at the end of the string and changes
/// nothing else.
pub assume_specification[ String::push ](s: &mut String, c: char)
    ensures
        final(s)@ == old(s)@.push(c),
;

/// The position of the first occurrence of `x`, or the length if there is none.
pub open spec fn find<T>(s: Seq<T>, x: T) -> int
    decreases s.len(),
{
    if s.len() == 0 {
        0
    } else if s[0] == x {
        0
    } else {
        1 + find(s.skip(1), x)
    }
}

pub proof fn lemma_find<T>(s: Seq<T>, x: T)
    ensures
        0 <= find(s, x) <= s.len(),
        forall|i: int| 0 <= i < find(s, x) ==> s[i] != x,
        find(s, x) < s.len() ==> s[find(s, x)] == x,
        find(s, x) < s.len() <==> s.contains(x),
    decreases s.len(),
{
    if s.len() > 0 && s[0] != x {
        lemma_find(s.skip(1), x);
        assert forall|i: int| 0 <= i < find(s, x) implies s[i] != x by {
            if i > 0 {
                assert(s.skip(1)[i - 1] == s[i]);
            }
        }
        if s.contains(x) {
            let k = choose|k: int| 0 <= k < s.len() && s[k] == x;
            assert(s.skip(1)[k - 1] == x);
            assert(s.skip(1).contains(x));
        }
    }
}

/// The first occurrence is the only position with nothing before it.
pub proof fn lemma_find_is<T>(s: Seq<T>, x: T, k: int)
    requires
        0 <= k <= s.len(),
        forall|i: int| 0 <= i < k ==> s[i] != x,
        k < s.len() ==> s[k] == x,
    ensures
        find(s, x) == k,
{
    lemma_find(s, x);
    if find(s, x) < k {
        assert(s[find(s, x)] == x);
    }
}

/// The pieces between the occurrences of `x`; there is always at least one.
pub open spec fn split<T>(s: Seq<T>, x: T) -> Seq<Seq<T>>
    decreases s.len(),
    via split_decreases::<T>
{
    let k = find(s, x);
    if k >= s.len() {
        seq![s]
    } else {
        seq![s.take(k)] + split(s.skip(k + 1), x)
    }
}

#[via_fn]
proof fn split_decreases<T>(s: Seq<T>, x: T) {
    lemma_find(s, x);
}

/// The text before and after the first `x`, if there is one.
pub open spec fn split_once<T>(s: Seq<T>, x: T) -> Option<(Seq<T>, Seq<T>)> {
    let k = find(s, x);
    if k < s.len() {
        Some((s.take(k), s.skip(k + 1)))
    } else {
        None
    }
}

pub open spec fn starts_with<T>(s: Seq<T>, prefix: Seq<T>) -> bool {
    prefix.len() <= s.len() && s.take(prefix.len() as int) == prefix
}

/// A line without the carriage return that belonged to its line ending.
pub open spec fn without_cr(line: Seq<char>) -> Seq<char> {
    if line.len() > 0 && line.last() == '\r' {
        line.drop_last()
    } else {
        line
    }
}

/// The lines of a text: a line ends at `\n` or `\r\n`, and the last line needs
/// no ending.
pub open spec fn lines(s: Seq<char>) -> Seq<Seq<char>>
    decreases s.len(),
    via lines_decreases
{
    let k = find(s, '\n');
    if s.len() == 0 {
        Seq::empty()
    } else if k >= s.len() {
        seq![s]
    } else {
        seq![without_cr(s.take(k))] + lines(s.skip(k + 1))
    }
}

#[via_fn]
proof fn lines_decreases(s: Seq<char>) {
    lemma_find(s, '\n');
}

/// The characters with the Unicode property White_Space.
pub open spec fn is_white_space(c: char) -> bool {
    ||| 0x9 <= c as u32 <= 0xd
    ||| c as u32 == 0x20
    ||| c as u32 == 0x85
    ||| c as u32 == 0xa0
    ||| c as u32 == 0x1680
    ||| 0x2000 <= c as u32 <= 0x200a
    ||| c as u32 == 0x2028
    ||| c as u32 == 0x2029
    ||| c as u32 == 0x202f
    ||| c as u32 == 0x205f
    ||| c as u32 == 0x3000
}

/// Nothing but white space.
pub open spec fn is_blank(s: Seq<char>) -> bool {
    forall|i: int| 0 <= i < s.len() ==> is_white_space(#[trigger] s[i])
}

pub open spec fn trim_start(s: Seq<char>) -> Seq<char>
    decreases s.len(),
{
    if s.len() > 0 && is_white_space(s[0]) {
        trim_start(s.skip(1))
    } else {
        s
    }
}

pub open spec fn trim_end(s: Seq<char>) -> Seq<char>
    decreases s.len(),
{
    if s.len() > 0 && is_white_space(s.last()) {
        trim_end(s.drop_last())
    } else {
        s
    }
}

/// The text without the white space at its two ends.
pub open spec fn trim(s: Seq<char>) -> Seq<char> {
    trim_end(trim_start(s))
}

pub open spec fn is_digit(c: char) -> bool {
    '0' <= c <= '9'
}

/// At least one character, all of them decimal digits.
pub open spec fn is_number(s: Seq<char>) -> bool {
    &&& s.len() > 0
    &&& forall|i: int| 0 <= i < s.len() ==> is_digit(#[trigger] s[i])
}

/// The texts that a list of strings holds.
pub open spec fn views(list: Seq<String>) -> Seq<Seq<char>> {
    list.map_values(|s: String| s@)
}

/// The digit character for a value below sixteen, in lower case.
pub open spec fn digit_char(value: int) -> char {
    if value < 10 {
        ('0' as u8 + value) as u8 as char
    } else {
        ('a' as u8 + (value - 10)) as u8 as char
    }
}

/// A number in decimal, without leading zeros.
pub open spec fn decimal(n: nat) -> Seq<char>
    decreases n,
{
    if n < 10 {
        seq![digit_char(n as int)]
    } else {
        decimal(n / 10).push(digit_char((n % 10) as int))
    }
}

/// The `width` lowest hexadecimal digits of a number.
pub open spec fn hexadecimal(n: nat, width: nat) -> Seq<char>
    decreases width,
{
    if width == 0 {
        Seq::empty()
    } else {
        hexadecimal(n / 16, (width - 1) as nat).push(digit_char((n % 16) as int))
    }
}

pub proof fn lemma_hexadecimal_len(n: nat, width: nat)
    ensures
        hexadecimal(n, width).len() == width,
    decreases width,
{
    if width > 0 {
        lemma_hexadecimal_len(n / 16, (width - 1) as nat);
    }
}

pub fn same_text(a: &str, b: &str) -> (same: bool)
    ensures
        same == (a@ == b@),
{
    let first: String = a.to_owned();
    let second: String = b.to_owned();
    first == second
}

pub fn chars_of(text: &str) -> (out: Vec<char>)
    ensures
        out@ == text@,
{
    let mut out: Vec<char> = Vec::new();
    for c in it: text.chars()
        invariant
            it.seq() == text@,
            out@ == text@.take(it.index() as int),
    {
        out.push(c);
    }
    out
}

/// The text between two positions.
pub fn text_between(chars: &[char], from: usize, to: usize) -> (out: String)
    requires
        from <= to <= chars@.len(),
    ensures
        out@ == chars@.subrange(from as int, to as int),
{
    let mut out: String = String::new();
    let mut i: usize = from;
    while i < to
        invariant
            from <= i <= to <= chars@.len(),
            out@ == chars@.subrange(from as int, i as int),
        decreases to - i,
    {
        out.push(chars[i]);
        i = i + 1;
    }
    out
}

/// The first position at or after `from` that holds `x`, or the length.
pub fn find_from(chars: &[char], from: usize, x: char) -> (at: usize)
    requires
        from <= chars@.len(),
    ensures
        from <= at <= chars@.len(),
        at == from + find(chars@.skip(from as int), x),
{
    let mut i: usize = from;
    while i < chars.len() && chars[i] != x
        invariant
            from <= i <= chars@.len(),
            forall|j: int| from <= j < i ==> chars@[j] != x,
        decreases chars@.len() - i,
    {
        i = i + 1;
    }
    proof {
        lemma_find_is(chars@.skip(from as int), x, i - from);
    }
    i
}

pub fn white_space(c: char) -> (r: bool)
    ensures
        r == is_white_space(c),
{
    let code: u32 = c as u32;
    (0x9 <= code && code <= 0xd) || code == 0x20 || code == 0x85 || code == 0xa0 || code == 0x1680
        || (0x2000 <= code && code <= 0x200a) || code == 0x2028 || code == 0x2029 || code == 0x202f
        || code == 0x205f || code == 0x3000
}

pub fn blank(text: &str) -> (r: bool)
    ensures
        r == is_blank(text@),
{
    let chars: Vec<char> = chars_of(text);
    let mut i: usize = 0;
    while i < chars.len()
        invariant
            chars@ == text@,
            i <= chars@.len(),
            forall|j: int| 0 <= j < i ==> is_white_space(#[trigger] text@[j]),
        decreases chars@.len() - i,
    {
        if !white_space(chars[i]) {
            return false;
        }
        i = i + 1;
    }
    true
}

pub fn contains_char(text: &str, x: char) -> (r: bool)
    ensures
        r == text@.contains(x),
{
    let chars: Vec<char> = chars_of(text);
    let at: usize = find_from(chars.as_slice(), 0, x);
    proof {
        assert(chars@.skip(0) =~= text@);
        lemma_find(text@, x);
    }
    at < chars.len()
}

proof fn lemma_trim_start(s: Seq<char>, k: int)
    requires
        0 <= k <= s.len(),
        forall|i: int| 0 <= i < k ==> is_white_space(#[trigger] s[i]),
        k < s.len() ==> !is_white_space(s[k]),
    ensures
        trim_start(s) == s.skip(k),
    decreases k,
{
    if k > 0 {
        let rest = s.skip(1);
        assert forall|i: int| 0 <= i < k - 1 implies is_white_space(#[trigger] rest[i]) by {
            assert(rest[i] == s[i + 1]);
        }
        lemma_trim_start(rest, k - 1);
        assert(rest.skip(k - 1) =~= s.skip(k));
    } else {
        assert(s.skip(0) =~= s);
    }
}

proof fn lemma_trim_end(s: Seq<char>, k: int)
    requires
        0 <= k <= s.len(),
        forall|i: int| k <= i < s.len() ==> is_white_space(#[trigger] s[i]),
        k > 0 ==> !is_white_space(s[k - 1]),
    ensures
        trim_end(s) == s.take(k),
    decreases s.len() - k,
{
    if k < s.len() {
        lemma_trim_end(s.drop_last(), k);
        assert(s.drop_last().take(k) =~= s.take(k));
    } else {
        assert(s.take(k) =~= s);
    }
}

pub fn trimmed(text: &str) -> (out: String)
    ensures
        out@ == trim(text@),
{
    let chars: Vec<char> = chars_of(text);
    let mut from: usize = 0;
    while from < chars.len() && white_space(chars[from])
        invariant
            from <= chars@.len(),
            forall|j: int| 0 <= j < from ==> is_white_space(#[trigger] chars@[j]),
        decreases chars@.len() - from,
    {
        from = from + 1;
    }
    let mut to: usize = chars.len();
    while to > from && white_space(chars[to - 1])
        invariant
            from <= to <= chars@.len(),
            forall|j: int| to <= j < chars@.len() ==> is_white_space(#[trigger] chars@[j]),
        decreases to,
    {
        to = to - 1;
    }
    proof {
        lemma_trim_start(chars@, from as int);
        let rest = chars@.skip(from as int);
        assert forall|i: int| to - from <= i < rest.len() implies is_white_space(
            #[trigger] rest[i],
        ) by {
            assert(rest[i] == chars@[i + from]);
        }
        lemma_trim_end(rest, to - from);
        assert(rest.take(to - from) =~= chars@.subrange(from as int, to as int));
    }
    text_between(chars.as_slice(), from, to)
}

pub fn prefixed(text: &str, prefix: &str) -> (r: bool)
    ensures
        r == starts_with(text@, prefix@),
{
    let chars: Vec<char> = chars_of(text);
    let wanted: Vec<char> = chars_of(prefix);
    assert(chars@.skip(0) =~= text@);
    chars_start_with(chars.as_slice(), 0, wanted.as_slice())
}

/// Whether `wanted` stands at position `at`.
pub fn chars_start_with(chars: &[char], at: usize, wanted: &[char]) -> (r: bool)
    requires
        at <= chars@.len(),
    ensures
        r == starts_with(chars@.skip(at as int), wanted@),
{
    let length: usize = chars.len();
    if wanted.len() > length - at {
        return false;
    }
    let mut i: usize = 0;
    while i < wanted.len()
        invariant
            length == chars@.len(),
            i <= wanted@.len() <= length - at,
            forall|j: int| 0 <= j < i ==> chars@[at + j] == wanted@[j],
        decreases wanted@.len() - i,
    {
        if chars[at + i] != wanted[i] {
            proof {
                assert(chars@.skip(at as int).take(wanted@.len() as int)[i as int] != wanted@[i as int]);
            }
            return false;
        }
        i = i + 1;
    }
    assert(chars@.skip(at as int).take(wanted@.len() as int) =~= wanted@);
    true
}

/// The text after `prefix`, if it starts with it.
pub fn stripped(text: &str, prefix: &str) -> (out: Option<String>)
    ensures
        match out {
            Some(rest) => starts_with(text@, prefix@) && rest@ == text@.skip(
                prefix@.len() as int,
            ),
            None => !starts_with(text@, prefix@),
        },
{
    let chars: Vec<char> = chars_of(text);
    let wanted: Vec<char> = chars_of(prefix);
    assert(chars@.skip(0) =~= text@);
    if chars_start_with(chars.as_slice(), 0, wanted.as_slice()) {
        assert(chars@.subrange(wanted@.len() as int, chars@.len() as int) =~= text@.skip(
            prefix@.len() as int,
        ));
        Some(text_between(chars.as_slice(), wanted.len(), chars.len()))
    } else {
        None
    }
}

pub fn split_at_char(text: &str, x: char) -> (out: Option<(String, String)>)
    ensures
        match out {
            Some((before, after)) => split_once(text@, x) == Some((before@, after@)),
            None => split_once(text@, x) is None,
        },
{
    let chars: Vec<char> = chars_of(text);
    let at: usize = find_from(chars.as_slice(), 0, x);
    assert(chars@.skip(0) =~= text@);
    if at < chars.len() {
        let before: String = text_between(chars.as_slice(), 0, at);
        let after: String = text_between(chars.as_slice(), at + 1, chars.len());
        assert(before@ =~= text@.take(at as int));
        assert(after@ =~= text@.skip(at + 1));
        Some((before, after))
    } else {
        None
    }
}

pub fn split_chars(text: &str, x: char) -> (out: Vec<String>)
    ensures
        views(out@) == split(text@, x),
{
    let chars: Vec<char> = chars_of(text);
    let mut out: Vec<String> = Vec::new();
    let mut from: usize = 0;
    assert(chars@.skip(0) =~= text@);
    assert(views(out@) =~= Seq::<Seq<char>>::empty());
    assert(views(out@) + split(chars@.skip(0), x) =~= split(text@, x));
    loop
        invariant
            chars@ == text@,
            from <= chars@.len(),
            views(out@) + split(chars@.skip(from as int), x) == split(text@, x),
        decreases chars@.len() - from,
    {
        let at: usize = find_from(chars.as_slice(), from, x);
        let piece: String = text_between(chars.as_slice(), from, at);
        let ghost rest = chars@.skip(from as int);
        let ghost before = views(out@);
        out.push(piece);
        proof {
            lemma_find(rest, x);
            assert(views(out@) =~= before.push(piece@));
            assert(piece@ =~= rest.take(at - from));
        }
        if at >= chars.len() {
            proof {
                assert(piece@ =~= rest);
                assert(before + split(rest, x) =~= views(out@));
            }
            return out;
        }
        from = at + 1;
        proof {
            assert(chars@.skip(from as int) =~= rest.skip(find(rest, x) + 1));
            assert(before + (seq![piece@] + split(chars@.skip(from as int), x)) =~= views(out@)
                + split(chars@.skip(from as int), x));
        }
    }
}

pub fn lines_of(text: &str) -> (out: Vec<String>)
    ensures
        views(out@) == lines(text@),
{
    let chars: Vec<char> = chars_of(text);
    let mut out: Vec<String> = Vec::new();
    let mut from: usize = 0;
    assert(chars@.skip(0) =~= text@);
    assert(views(out@) + lines(chars@.skip(0)) =~= lines(text@));
    while from < chars.len()
        invariant
            chars@ == text@,
            from <= chars@.len(),
            views(out@) + lines(chars@.skip(from as int)) == lines(text@),
        decreases chars@.len() - from,
    {
        let at: usize = find_from(chars.as_slice(), from, '\n');
        let ghost rest = chars@.skip(from as int);
        let ghost before = views(out@);
        proof {
            lemma_find(rest, '\n');
        }
        if at >= chars.len() {
            let last: String = text_between(chars.as_slice(), from, chars.len());
            out.push(last);
            proof {
                assert(last@ =~= rest);
                assert(views(out@) =~= before.push(last@));
                assert(before + lines(rest) =~= views(out@));
            }
            return out;
        }
        let end: usize = if at > from && chars[at - 1] == '\r' {
            at - 1
        } else {
            at
        };
        let line: String = text_between(chars.as_slice(), from, end);
        out.push(line);
        proof {
            let whole = rest.take(at - from);
            assert(line@ =~= without_cr(whole)) by {
                if at > from {
                    assert(whole.last() == chars@[at - 1]);
                }
            }
            assert(views(out@) =~= before.push(line@));
            assert(chars@.skip(at + 1) =~= rest.skip(find(rest, '\n') + 1));
            assert(before + (seq![line@] + lines(chars@.skip(at + 1))) =~= views(out@) + lines(
                chars@.skip(at + 1),
            ));
        }
        from = at + 1;
    }
    assert(chars@.skip(from as int) =~= Seq::<char>::empty());
    assert(views(out@) + Seq::<Seq<char>>::empty() =~= views(out@));
    out
}

pub fn copy_texts(list: &Vec<String>) -> (out: Vec<String>)
    ensures
        views(out@) == views(list@),
{
    let mut out: Vec<String> = Vec::new();
    let mut i: usize = 0;
    while i < list.len()
        invariant
            i <= list@.len(),
            views(out@) == views(list@).take(i as int),
        decreases list@.len() - i,
    {
        let ghost before = views(out@);
        out.push(list[i].clone());
        assert(views(out@) =~= before.push(list@[i as int]@));
        assert(views(list@).take(i + 1) =~= views(list@).take(i as int).push(list@[i as int]@));
        i = i + 1;
    }
    assert(views(list@).take(i as int) =~= views(list@));
    out
}

/// The order of texts: by their first different character, a prefix first.
pub open spec fn precedes(a: Seq<char>, b: Seq<char>) -> bool
    decreases a.len(),
{
    if b.len() == 0 {
        false
    } else if a.len() == 0 {
        true
    } else if a[0] == b[0] {
        precedes(a.skip(1), b.skip(1))
    } else {
        a[0] < b[0]
    }
}

/// The order is transitive, and nothing precedes itself.
pub proof fn lemma_precedes(a: Seq<char>, b: Seq<char>, c: Seq<char>)
    ensures
        !precedes(a, a),
        precedes(a, b) && precedes(b, c) ==> precedes(a, c),
    decreases a.len(),
{
    if a.len() > 0 {
        lemma_precedes(a.skip(1), b.skip(1), c.skip(1));
    }
}

/// Any two different texts are ordered.
pub proof fn lemma_precedes_total(a: Seq<char>, b: Seq<char>)
    ensures
        a == b || precedes(a, b) || precedes(b, a),
    decreases a.len(),
{
    if a.len() > 0 && b.len() > 0 {
        if a[0] == b[0] {
            lemma_precedes_total(a.skip(1), b.skip(1));
            if a.skip(1) == b.skip(1) {
                assert(a =~= seq![a[0]] + a.skip(1));
                assert(b =~= seq![b[0]] + b.skip(1));
            }
        }
    } else if a.len() == 0 && b.len() == 0 {
        assert(a =~= b);
    }
}

pub fn text_precedes(a: &str, b: &str) -> (r: bool)
    ensures
        r == precedes(a@, b@),
{
    let first: Vec<char> = chars_of(a);
    let second: Vec<char> = chars_of(b);
    let mut i: usize = 0;
    assert(first@.skip(0) =~= a@);
    assert(second@.skip(0) =~= b@);
    while i < first.len() && i < second.len()
        invariant
            i <= first@.len(),
            i <= second@.len(),
            precedes(first@.skip(i as int), second@.skip(i as int)) == precedes(a@, b@),
        decreases first@.len() - i,
    {
        if first[i] != second[i] {
            return first[i] < second[i];
        }
        assert(first@.skip(i as int).skip(1) =~= first@.skip(i + 1));
        assert(second@.skip(i as int).skip(1) =~= second@.skip(i + 1));
        i = i + 1;
    }
    i < second.len()
}

pub fn digit(value: u8) -> (c: char)
    requires
        value < 16,
    ensures
        c == digit_char(value as int),
{
    if value < 10 {
        (0x30 + value) as char
    } else {
        (0x61 + (value - 10)) as char
    }
}

pub fn decimal_text(n: u128) -> (out: String)
    ensures
        out@ == decimal(n as nat),
    decreases n,
{
    let mut out: String = if n < 10 {
        String::new()
    } else {
        decimal_text(n / 10)
    };
    out.push(digit((n % 10) as u8));
    out
}

pub fn number(text: &str) -> (r: bool)
    ensures
        r == is_number(text@),
{
    let chars: Vec<char> = chars_of(text);
    let mut i: usize = 0;
    while i < chars.len()
        invariant
            chars@ == text@,
            i <= chars@.len(),
            forall|j: int| 0 <= j < i ==> is_digit(#[trigger] text@[j]),
        decreases chars@.len() - i,
    {
        if chars[i] < '0' || '9' < chars[i] {
            return false;
        }
        i = i + 1;
    }
    chars.len() > 0
}

/// Trimming takes away the white space around a text and nothing of the text.
pub proof fn trimming_takes_the_white_space_around(
    before: Seq<char>,
    text: Seq<char>,
    behind: Seq<char>,
)
    requires
        is_blank(before),
        is_blank(behind),
        text.len() > 0 ==> !is_white_space(text[0]) && !is_white_space(text.last()),
    ensures
        trim(before + text + behind) == text,
{
    let all = before + text + behind;
    if text.len() == 0 {
        assert forall|i: int| 0 <= i < all.len() implies is_white_space(#[trigger] all[i]) by {
            if i < before.len() {
                assert(all[i] == before[i]);
            } else {
                assert(all[i] == behind[i - before.len()]);
            }
        }
        lemma_trim_start(all, all.len() as int);
        assert(all.skip(all.len() as int) =~= text);
    } else {
        let n = before.len() as int;
        assert forall|i: int| 0 <= i < n implies is_white_space(#[trigger] all[i]) by {
            assert(all[i] == before[i]);
        }
        lemma_trim_start(all, n);
        let rest = all.skip(n);
        assert(rest =~= text + behind);
        assert forall|i: int| text.len() <= i < rest.len() implies is_white_space(
            #[trigger] rest[i],
        ) by {
            assert(rest[i] == behind[i - text.len()]);
        }
        lemma_trim_end(rest, text.len() as int);
        assert(rest.take(text.len() as int) =~= text);
    }
}

/// White space is what Unicode says it is.
pub proof fn white_space_is_this(c: char)
    ensures
        is_white_space(c) <==> {
            let n = c as u32;
            n == 9 || n == 10 || n == 11 || n == 12 || n == 13 || n == 32 || n == 0x85 || n == 0xa0
                || n == 0x1680 || n == 0x2000 || n == 0x2001 || n == 0x2002 || n == 0x2003 || n
                == 0x2004 || n == 0x2005 || n == 0x2006 || n == 0x2007 || n == 0x2008 || n == 0x2009
                || n == 0x200a || n == 0x2028 || n == 0x2029 || n == 0x202f || n == 0x205f || n
                == 0x3000
        },
{
}

/// A list of pieces with one separator between them is split into these pieces.
pub proof fn splitting_undoes_joining<T>(piece: Seq<T>, rest: Seq<T>, x: T)
    requires
        !piece.contains(x),
    ensures
        split(piece, x) == seq![piece],
        split(piece + seq![x] + rest, x) == seq![piece] + split(rest, x),
        split_once(piece, x) is None,
        split_once(piece + seq![x] + rest, x) == Some((piece, rest)),
{
    let whole = piece + seq![x] + rest;
    let n = piece.len() as int;
    lemma_find(piece, x);
    assert forall|i: int| 0 <= i < n implies whole[i] != x by {
        assert(whole[i] == piece[i]);
        assert(piece.contains(piece[i]));
    }
    lemma_find_is(whole, x, n);
    assert(whole.take(n) =~= piece);
    assert(whole.skip(n + 1) =~= rest);
}

/// A text is read line by line, whichever of the two line endings it has, and its last
/// line needs none.
pub proof fn texts_are_read_line_by_line(line: Seq<char>, rest: Seq<char>)
    requires
        !line.contains('\n'),
        line.len() > 0 ==> line.last() != '\r',
    ensures
        lines(line + seq!['\n'] + rest) == seq![line] + lines(rest),
        lines(line + seq!['\r', '\n'] + rest) == seq![line] + lines(rest),
        line.len() > 0 ==> lines(line) == seq![line],
        lines(Seq::empty()) == Seq::<Seq<char>>::empty(),
{
    let n = line.len() as int;
    let one = line + seq!['\n'] + rest;
    let two = line + seq!['\r', '\n'] + rest;
    lemma_find(line, '\n');
    assert forall|i: int| 0 <= i < n implies one[i] != '\n' && two[i] != '\n' by {
        assert(one[i] == line[i] && two[i] == line[i]);
        assert(line.contains(line[i]));
    }
    lemma_find_is(one, '\n', n);
    assert(one.take(n) =~= line);
    assert(one.skip(n + 1) =~= rest);
    lemma_find_is(two, '\n', n + 1);
    assert(two.take(n + 1) =~= line.push('\r'));
    assert(line.push('\r').drop_last() =~= line);
    assert(two.skip(n + 2) =~= rest);
}

/// Texts are ordered by the first character in which they differ, and a text comes
/// before all that go on from it.
pub proof fn texts_are_ordered_by_their_first_difference(
    common: Seq<char>,
    a: char,
    b: char,
    x: Seq<char>,
    y: Seq<char>,
)
    requires
        a != b,
    ensures
        precedes(common + seq![a] + x, common + seq![b] + y) <==> a < b,
        precedes(common, common + seq![a] + x),
        !precedes(common + seq![a] + x, common),
        !precedes(common, common),
    decreases common.len(),
{
    let one = common + seq![a] + x;
    let two = common + seq![b] + y;
    if common.len() > 0 {
        texts_are_ordered_by_their_first_difference(common.skip(1), a, b, x, y);
        assert(one.skip(1) =~= common.skip(1) + seq![a] + x);
        assert(two.skip(1) =~= common.skip(1) + seq![b] + y);
        assert(one[0] == common[0] && two[0] == common[0]);
    } else {
        assert(one[0] == a && two[0] == b);
    }
}

/// A number is written with the digits of its tens in front of that of its ones.
pub proof fn numbers_are_written_in_decimal(n: nat, digit: nat)
    requires
        digit < 10,
    ensures
        decimal(digit) == seq![('0' as u32 + digit) as char],
        n > 0 ==> decimal(10 * n + digit) == decimal(n).push(('0' as u32 + digit) as char),
{
    assert(digit == 0 || digit == 1 || digit == 2 || digit == 3 || digit == 4 || digit == 5 || digit
        == 6 || digit == 7 || digit == 8 || digit == 9);
    assert(digit_char(digit as int) == ('0' as u32 + digit) as char);
    if n > 0 {
        let all: nat = 10 * n + digit;
        assert(all / 10 == n && all % 10 == digit) by (nonlinear_arith)
            requires
                all == 10 * n + digit,
                digit < 10,
        ;
    }
}

/// A number is one or more of the digits from 0 to 9.
pub proof fn numbers_are_made_of_digits(s: Seq<char>)
    ensures
        is_number(s) <==> s.len() > 0 && forall|i: int|
            0 <= i < s.len() ==> '0' <= #[trigger] s[i] <= '9',
{
    if s.len() > 0 && forall|i: int| 0 <= i < s.len() ==> '0' <= #[trigger] s[i] <= '9' {
        assert forall|i: int| 0 <= i < s.len() implies is_digit(#[trigger] s[i]) by {}
    }
    if is_number(s) {
        assert forall|i: int| 0 <= i < s.len() implies '0' <= #[trigger] s[i] <= '9' by {
            assert(is_digit(s[i]));
        }
    }
}

/// Nothing is left of a text by trimming exactly if it is blank.
pub proof fn lemma_trim_blank(s: Seq<char>)
    ensures
        trim(s).len() == 0 <==> is_blank(s),
{
    lemma_trim_start_blank(s);
    lemma_trim_end_blank(trim_start(s));
}

proof fn lemma_trim_start_blank(s: Seq<char>)
    ensures
        is_blank(trim_start(s)) <==> is_blank(s),
        trim_start(s).len() > 0 ==> !is_white_space(trim_start(s)[0]),
    decreases s.len(),
{
    if s.len() > 0 && is_white_space(s[0]) {
        let rest = s.skip(1);
        lemma_trim_start_blank(rest);
        if is_blank(rest) {
            assert forall|i: int| 0 <= i < s.len() implies is_white_space(#[trigger] s[i]) by {
                if i > 0 {
                    assert(s[i] == rest[i - 1]);
                }
            }
        }
        if is_blank(s) {
            assert forall|i: int| 0 <= i < rest.len() implies is_white_space(
                #[trigger] rest[i],
            ) by {
                assert(rest[i] == s[i + 1]);
            }
        }
    }
}

proof fn lemma_trim_end_blank(s: Seq<char>)
    ensures
        trim_end(s).len() == 0 <==> is_blank(s),
    decreases s.len(),
{
    if s.len() > 0 && is_white_space(s.last()) {
        let rest = s.drop_last();
        lemma_trim_end_blank(rest);
        if is_blank(rest) {
            assert forall|i: int| 0 <= i < s.len() implies is_white_space(#[trigger] s[i]) by {
                if i < s.len() - 1 {
                    assert(s[i] == rest[i]);
                }
            }
        }
        if is_blank(s) {
            assert forall|i: int| 0 <= i < rest.len() implies is_white_space(
                #[trigger] rest[i],
            ) by {
                assert(rest[i] == s[i]);
            }
        }
    } else if s.len() > 0 {
        assert(!is_white_space(s[s.len() - 1]));
    }
}

/// The digits of a number are no separators.
pub proof fn lemma_decimal_plain(n: nat)
    ensures
        decimal(n).len() > 0,
        forall|i: int| 0 <= i < decimal(n).len() ==> '0' <= #[trigger] decimal(n)[i] <= '9',
    decreases n,
{
    if n >= 10 {
        lemma_decimal_plain(n / 10);
        numbers_are_written_in_decimal(n / 10, n % 10);
        assert(10 * (n / 10) + n % 10 == n);
    } else {
        numbers_are_written_in_decimal(0, n);
    }
}

} // verus!
