//! Unix paths as byte strings: components, parents, prefixes and joining.

use vstd::prelude::*;
use vstd::slice::slice_subrange;
use vstd::slice::slice_to_vec;

use crate::bytes::{find_byte, push_bytes, same_bytes};
use crate::text;

verus! {

/// A path that starts at the root directory.
pub open spec fn rooted(path: Seq<u8>) -> bool {
    path.len() > 0 && path[0] == '/' as u8
}

pub open spec fn dot() -> Seq<u8> {
    seq!['.' as u8]
}

pub open spec fn dot_dot() -> Seq<u8> {
    seq!['.' as u8, '.' as u8]
}

/// Whether the bytes between two separators name a component. Empty stretches
/// and single dots do not, except for a dot that opens a relative path.
pub open spec fn names_component(path: Seq<u8>, from: int, to: int) -> bool {
    from < to && (from == 0 || path.subrange(from, to) != dot())
}

/// The components of the path from position `start` on, each as the positions
/// where it begins and ends.
pub open spec fn spans_from(path: Seq<u8>, start: int) -> Seq<(int, int)>
    decreases path.len() - start,
    when 0 <= start <= path.len()
    via spans_decreases
{
    let end = start + text::find(path.skip(start), '/' as u8);
    let here = if names_component(path, start, end) {
        seq![(start, end)]
    } else {
        Seq::empty()
    };
    if end < path.len() {
        here + spans_from(path, end + 1)
    } else {
        here
    }
}

#[via_fn]
proof fn spans_decreases(path: Seq<u8>, start: int) {
    text::lemma_find(path.skip(start), '/' as u8);
}

pub open spec fn spans(path: Seq<u8>) -> Seq<(int, int)> {
    spans_from(path, 0)
}

/// The names of the components below the root or the current directory.
pub open spec fn names(path: Seq<u8>) -> Seq<Seq<u8>> {
    spans(path).map_values(|span: (int, int)| path.subrange(span.0, span.1))
}

/// Two spellings of one path: the same components in the same order.
pub open spec fn same_components(a: Seq<u8>, b: Seq<u8>) -> bool {
    rooted(a) == rooted(b) && names(a) == names(b)
}

/// The components of `base` are the first ones of `path`.
pub open spec fn has_prefix(path: Seq<u8>, base: Seq<u8>) -> bool {
    if !rooted(base) && names(base).len() == 0 {
        true
    } else {
        rooted(path) == rooted(base) && text::starts_with(names(path), names(base))
    }
}

/// The spelling of the components after the first `skip` ones.
pub open spec fn remainder(path: Seq<u8>, skip: int) -> Seq<u8> {
    let all = spans(path);
    if skip >= all.len() {
        Seq::empty()
    } else {
        path.subrange(all[skip].0, all.last().1)
    }
}

/// What is left of `path` below `base`.
pub open spec fn relative(path: Seq<u8>, base: Seq<u8>) -> Option<Seq<u8>> {
    if !has_prefix(path, base) {
        None
    } else if !rooted(base) && names(base).len() == 0 {
        Some(path.take(end_of(path, names(path).len() as int)))
    } else {
        Some(remainder(path, names(base).len() as int))
    }
}

/// Where the first `count` components end; a rooted path keeps its separator.
pub open spec fn end_of(path: Seq<u8>, count: int) -> int {
    if count > 0 {
        spans(path)[count - 1].1
    } else if rooted(path) {
        1
    } else {
        0
    }
}

/// The path without its last component; a root and an empty path have none.
pub open spec fn parent_of(path: Seq<u8>) -> Option<Seq<u8>> {
    if names(path).len() == 0 {
        None
    } else {
        Some(path.take(end_of(path, names(path).len() - 1)))
    }
}

/// The last component, unless it only refers to a directory.
pub open spec fn file_name_of(path: Seq<u8>) -> Option<Seq<u8>> {
    if names(path).len() == 0 || names(path).last() == dot() || names(path).last() == dot_dot() {
        None
    } else {
        Some(names(path).last())
    }
}

/// `more` below `base`; an absolute path stands for itself.
pub open spec fn joined(base: Seq<u8>, more: Seq<u8>) -> Seq<u8> {
    if rooted(more) {
        more
    } else if base.len() == 0 || base.last() == '/' as u8 {
        base + more
    } else {
        base + seq!['/' as u8] + more
    }
}

/// The path with its file name, if it has one, replaced.
pub open spec fn renamed(path: Seq<u8>, name: Seq<u8>) -> Seq<u8> {
    if file_name_of(path) is Some {
        joined(parent_of(path)->0, name)
    } else {
        joined(path, name)
    }
}

pub open spec fn span_views(list: Seq<(usize, usize)>) -> Seq<(int, int)> {
    list.map_values(|span: (usize, usize)| (span.0 as int, span.1 as int))
}

/// Components lie inside the path, one after the other.
pub proof fn lemma_spans(path: Seq<u8>, start: int)
    requires
        0 <= start <= path.len(),
    ensures
        forall|i: int|
            0 <= i < spans_from(path, start).len() ==> start <= (#[trigger] spans_from(
                path,
                start,
            )[i]).0 < spans_from(path, start)[i].1 <= path.len(),
        forall|i: int, j: int|
            0 <= i < j < spans_from(path, start).len() ==> (#[trigger] spans_from(path, start)[i]).1
                < (#[trigger] spans_from(path, start)[j]).0,
    decreases path.len() - start,
{
    let end = start + text::find(path.skip(start), '/' as u8);
    text::lemma_find(path.skip(start), '/' as u8);
    if end < path.len() {
        lemma_spans(path, end + 1);
        let tail = spans_from(path, end + 1);
        let all = spans_from(path, start);
        let n: int = if names_component(path, start, end) {
            1
        } else {
            0
        };
        assert forall|i: int| 0 <= i < all.len() implies start <= (#[trigger] all[i]).0 < all[i].1
            <= path.len() by {
            if i >= n {
                assert(all[i] == tail[i - n]);
            }
        }
        assert forall|i: int, j: int| 0 <= i < j < all.len() implies (#[trigger] all[i]).1 < (
        #[trigger] all[j]).0 by {
            assert(all[j] == tail[j - n]);
            if i >= n {
                assert(all[i] == tail[i - n]);
            }
        }
    }
}

pub fn is_absolute(path: &[u8]) -> (r: bool)
    ensures
        r == rooted(path@),
{
    path.len() > 0 && path[0] == 0x2f
}

/// The positions of the components of a path.
pub fn component_spans(path: &[u8]) -> (out: Vec<(usize, usize)>)
    ensures
        span_views(out@) == spans(path@),
{
    let mut out: Vec<(usize, usize)> = Vec::new();
    let mut start: usize = 0;
    assert(span_views(out@) + spans_from(path@, 0) =~= spans(path@));
    loop
        invariant
            start <= path@.len(),
            span_views(out@) + spans_from(path@, start as int) == spans(path@),
        decreases path@.len() - start,
    {
        let end: usize = find_byte(path, start, 0x2f);
        let ghost before = span_views(out@);
        let piece: &[u8] = slice_subrange(path, start, end);
        let is_dot: bool = piece.len() == 1 && piece[0] == 0x2e;
        assert(is_dot <==> path@.subrange(start as int, end as int) =~= dot());
        if start < end && (start == 0 || !is_dot) {
            out.push((start, end));
            assert(span_views(out@) =~= before.push((start as int, end as int)));
        }
        if end >= path.len() {
            proof {
                assert(before + spans_from(path@, start as int) =~= span_views(out@));
            }
            return out;
        }
        proof {
            assert(before + spans_from(path@, start as int) =~= span_views(out@) + spans_from(
                path@,
                end + 1,
            ));
        }
        start = end + 1;
    }
}

/// The bytes of one component.
fn component<'a>(path: &'a [u8], all: &Vec<(usize, usize)>, i: usize) -> (out: &'a [u8])
    requires
        span_views(all@) == spans(path@),
        i < all@.len(),
    ensures
        out@ == names(path@)[i as int],
{
    proof {
        lemma_spans(path@, 0);
        assert(spans(path@)[i as int] == (all@[i as int].0 as int, all@[i as int].1 as int));
    }
    slice_subrange(path, all[i].0, all[i].1)
}

/// Whether the first `count` components of two paths agree.
fn components_agree(
    a: &[u8],
    a_spans: &Vec<(usize, usize)>,
    b: &[u8],
    b_spans: &Vec<(usize, usize)>,
    count: usize,
) -> (r: bool)
    requires
        span_views(a_spans@) == spans(a@),
        span_views(b_spans@) == spans(b@),
        count <= a_spans@.len(),
        count <= b_spans@.len(),
    ensures
        r == (names(a@).take(count as int) == names(b@).take(count as int)),
{
    let mut i: usize = 0;
    while i < count
        invariant
            span_views(a_spans@) == spans(a@),
            span_views(b_spans@) == spans(b@),
            i <= count <= a_spans@.len(),
            count <= b_spans@.len(),
            forall|j: int| 0 <= j < i ==> names(a@)[j] == names(b@)[j],
        decreases count - i,
    {
        if !same_bytes(component(a, a_spans, i), component(b, b_spans, i)) {
            assert(names(a@).take(count as int)[i as int] != names(b@).take(count as int)[i as int]);
            return false;
        }
        i = i + 1;
    }
    assert(names(a@).take(count as int) =~= names(b@).take(count as int));
    true
}

pub fn same_path(a: &[u8], b: &[u8]) -> (r: bool)
    ensures
        r == same_components(a@, b@),
{
    let a_spans: Vec<(usize, usize)> = component_spans(a);
    let b_spans: Vec<(usize, usize)> = component_spans(b);
    if is_absolute(a) != is_absolute(b) || a_spans.len() != b_spans.len() {
        assert(a_spans@.len() == names(a@).len());
        assert(b_spans@.len() == names(b@).len());
        return false;
    }
    assert(names(a@).take(a_spans@.len() as int) =~= names(a@));
    assert(names(b@).take(b_spans@.len() as int) =~= names(b@));
    components_agree(a, &a_spans, b, &b_spans, a_spans.len())
}

pub fn is_within(path: &[u8], base: &[u8]) -> (r: bool)
    ensures
        r == has_prefix(path@, base@),
{
    let path_spans: Vec<(usize, usize)> = component_spans(path);
    let base_spans: Vec<(usize, usize)> = component_spans(base);
    assert(path_spans@.len() == names(path@).len());
    assert(base_spans@.len() == names(base@).len());
    if !is_absolute(base) && base_spans.len() == 0 {
        return true;
    }
    if is_absolute(path) != is_absolute(base) || base_spans.len() > path_spans.len() {
        return false;
    }
    assert(names(base@).take(base_spans@.len() as int) =~= names(base@));
    components_agree(path, &path_spans, base, &base_spans, base_spans.len())
}

/// Where the first `count` components of a path end.
fn end_position(path: &[u8], all: &Vec<(usize, usize)>, count: usize) -> (end: usize)
    requires
        span_views(all@) == spans(path@),
        count <= all@.len(),
    ensures
        end == end_of(path@, count as int),
        end <= path@.len(),
{
    if count > 0 {
        proof {
            lemma_spans(path@, 0);
            assert(spans(path@)[count - 1] == (
                all@[count - 1].0 as int,
                all@[count - 1].1 as int,
            ));
        }
        all[count - 1].1
    } else if is_absolute(path) {
        1
    } else {
        0
    }
}

pub fn strip_base(path: &[u8], base: &[u8]) -> (out: Option<Vec<u8>>)
    ensures
        match out {
            Some(rest) => relative(path@, base@) == Some(rest@),
            None => relative(path@, base@) is None,
        },
{
    if !is_within(path, base) {
        return None;
    }
    let path_spans: Vec<(usize, usize)> = component_spans(path);
    let base_spans: Vec<(usize, usize)> = component_spans(base);
    assert(path_spans@.len() == names(path@).len());
    assert(base_spans@.len() == names(base@).len());
    if !is_absolute(base) && base_spans.len() == 0 {
        let end: usize = end_position(path, &path_spans, path_spans.len());
        let whole: &[u8] = slice_subrange(path, 0, end);
        assert(whole@ =~= path@.take(end as int));
        return Some(slice_to_vec(whole));
    }
    if base_spans.len() == path_spans.len() {
        return Some(Vec::new());
    }
    proof {
        lemma_spans(path@, 0);
        let k = base_spans@.len() as int;
        let n = path_spans@.len() as int;
        assert(spans(path@)[k] == (path_spans@[k].0 as int, path_spans@[k].1 as int));
        assert(spans(path@)[n - 1] == (path_spans@[n - 1].0 as int, path_spans@[n - 1].1 as int));
    }
    let from: usize = path_spans[base_spans.len()].0;
    let to: usize = path_spans[path_spans.len() - 1].1;
    Some(slice_to_vec(slice_subrange(path, from, to)))
}

pub fn parent(path: &[u8]) -> (out: Option<Vec<u8>>)
    ensures
        match out {
            Some(above) => parent_of(path@) == Some(above@),
            None => parent_of(path@) is None,
        },
{
    let all: Vec<(usize, usize)> = component_spans(path);
    assert(all@.len() == names(path@).len());
    if all.len() == 0 {
        return None;
    }
    let end: usize = end_position(path, &all, all.len() - 1);
    let above: &[u8] = slice_subrange(path, 0, end);
    assert(above@ =~= path@.take(end as int));
    Some(slice_to_vec(above))
}

pub fn file_name(path: &[u8]) -> (out: Option<Vec<u8>>)
    ensures
        match out {
            Some(name) => file_name_of(path@) == Some(name@),
            None => file_name_of(path@) is None,
        },
{
    let all: Vec<(usize, usize)> = component_spans(path);
    assert(all@.len() == names(path@).len());
    if all.len() == 0 {
        return None;
    }
    let last: &[u8] = component(path, &all, all.len() - 1);
    if last.len() == 1 && last[0] == 0x2e {
        assert(last@ =~= dot());
        return None;
    }
    if last.len() == 2 && last[0] == 0x2e && last[1] == 0x2e {
        assert(last@ =~= dot_dot());
        return None;
    }
    Some(slice_to_vec(last))
}

pub fn join(base: &[u8], more: &[u8]) -> (out: Vec<u8>)
    ensures
        out@ == joined(base@, more@),
{
    if is_absolute(more) {
        return slice_to_vec(more);
    }
    let mut out: Vec<u8> = slice_to_vec(base);
    if base.len() > 0 && base[base.len() - 1] != 0x2f {
        out.push(0x2f);
        assert(out@ =~= base@ + seq!['/' as u8]);
    }
    push_bytes(&mut out, more);
    out
}

/// `text` as a path below `base`.
pub fn join_text(base: &[u8], text: &str) -> (out: Vec<u8>)
    ensures
        out@ == joined(base@, vstd::utf8::encode_utf8(text@)),
{
    join(base, text.as_bytes())
}

pub fn with_file_name(path: &[u8], name: &[u8]) -> (out: Vec<u8>)
    ensures
        out@ == renamed(path@, name@),
{
    match (file_name(path), parent(path)) {
        (Some(_), Some(above)) => join(above.as_slice(), name),
        _ => join(path, name),
    }
}

/// Whether the file name ends in `.` and `extension`, with something before it.
pub open spec fn extension_is(path: Seq<u8>, extension: Seq<u8>) -> bool {
    file_name_of(path) matches Some(name) && name.len() > extension.len() + 1 && name.skip(
        name.len() - extension.len() - 1,
    ) == seq!['.' as u8] + extension
}

pub fn has_extension(path: &[u8], extension: &[u8]) -> (r: bool)
    ensures
        r == extension_is(path@, extension@),
{
    let name: Vec<u8> = match file_name(path) {
        Some(name) => name,
        None => {
            return false;
        },
    };
    if name.len() <= extension.len() || name.len() - extension.len() == 1 {
        return false;
    }
    let at: usize = name.len() - extension.len();
    let ghost tail = name@.skip(at - 1);
    if name[at - 1] != 0x2e {
        assert(tail[0] != (seq!['.' as u8] + extension@)[0]);
        return false;
    }
    let rest: &[u8] = slice_subrange(name.as_slice(), at, name.len());
    proof {
        assert(tail =~= seq!['.' as u8] + rest@);
        assert((seq!['.' as u8] + extension@).skip(1) =~= extension@);
        assert(tail.skip(1) =~= rest@);
    }
    same_bytes(rest, extension)
}

/// Byte strings in lexicographic order.
pub open spec fn bytes_before(a: Seq<u8>, b: Seq<u8>) -> bool
    decreases a.len(),
{
    if b.len() == 0 {
        false
    } else if a.len() == 0 {
        true
    } else if a[0] != b[0] {
        a[0] < b[0]
    } else {
        bytes_before(a.skip(1), b.skip(1))
    }
}

/// The current directory comes first, then the parent, then all names.
pub open spec fn rank(name: Seq<u8>) -> int {
    if name == dot() {
        0
    } else if name == dot_dot() {
        1
    } else {
        2
    }
}

pub open spec fn name_before(a: Seq<u8>, b: Seq<u8>) -> bool {
    rank(a) < rank(b) || (rank(a) == rank(b) && bytes_before(a, b))
}

/// Lists of names in lexicographic order.
pub open spec fn names_before(a: Seq<Seq<u8>>, b: Seq<Seq<u8>>) -> bool
    decreases a.len(),
{
    if b.len() == 0 {
        false
    } else if a.len() == 0 {
        true
    } else if a[0] != b[0] {
        name_before(a[0], b[0])
    } else {
        names_before(a.skip(1), b.skip(1))
    }
}

/// Paths in the order of their components, of which the root comes first.
pub open spec fn comes_before(a: Seq<u8>, b: Seq<u8>) -> bool {
    if rooted(a) && !rooted(b) {
        names(b).len() > 0
    } else if !rooted(a) && rooted(b) {
        names(a).len() == 0
    } else {
        names_before(names(a), names(b))
    }
}

fn bytes_precede(a: &[u8], b: &[u8]) -> (r: bool)
    ensures
        r == bytes_before(a@, b@),
{
    let mut i: usize = 0;
    assert(a@.skip(0) =~= a@);
    assert(b@.skip(0) =~= b@);
    while i < a.len() && i < b.len()
        invariant
            i <= a@.len(),
            i <= b@.len(),
            bytes_before(a@.skip(i as int), b@.skip(i as int)) == bytes_before(a@, b@),
        decreases a@.len() - i,
    {
        assert(a@.skip(i as int)[0] == a@[i as int]);
        assert(b@.skip(i as int)[0] == b@[i as int]);
        if a[i] != b[i] {
            return a[i] < b[i];
        }
        assert(a@.skip(i as int).skip(1) =~= a@.skip(i + 1));
        assert(b@.skip(i as int).skip(1) =~= b@.skip(i + 1));
        i = i + 1;
    }
    i < b.len()
}

fn rank_of(name: &[u8]) -> (r: u8)
    ensures
        r == rank(name@),
{
    if name.len() == 1 && name[0] == 0x2e {
        assert(name@ =~= dot());
        return 0;
    }
    if name.len() == 2 && name[0] == 0x2e && name[1] == 0x2e {
        assert(name@ =~= dot_dot());
        assert(name@.len() != dot().len());
        return 1;
    }
    proof {
        if name@ == dot() {
            assert(name@.len() == 1 && name@[0] == '.' as u8);
        }
        if name@ == dot_dot() {
            assert(name@.len() == 2 && name@[0] == '.' as u8 && name@[1] == '.' as u8);
        }
    }
    2
}

/// Whether one path comes before another.
pub fn path_precedes(a: &[u8], b: &[u8]) -> (r: bool)
    ensures
        r == comes_before(a@, b@),
{
    let first: Vec<(usize, usize)> = component_spans(a);
    let second: Vec<(usize, usize)> = component_spans(b);
    assert(names(a@).len() == first@.len());
    assert(names(b@).len() == second@.len());
    if is_absolute(a) && !is_absolute(b) {
        return second.len() > 0;
    }
    if !is_absolute(a) && is_absolute(b) {
        return first.len() == 0;
    }
    proof {
        lemma_spans(a@, 0);
        lemma_spans(b@, 0);
    }
    let mut i: usize = 0;
    assert(names(a@).skip(0) =~= names(a@));
    assert(names(b@).skip(0) =~= names(b@));
    while i < first.len() && i < second.len()
        invariant
            rooted(a@) == rooted(b@),
            span_views(first@) == spans(a@),
            span_views(second@) == spans(b@),
            names(a@).len() == first@.len(),
            names(b@).len() == second@.len(),
            forall|j: int|
                0 <= j < spans(a@).len() ==> 0 <= (#[trigger] spans(a@)[j]).0 < spans(a@)[j].1
                    <= a@.len(),
            forall|j: int|
                0 <= j < spans(b@).len() ==> 0 <= (#[trigger] spans(b@)[j]).0 < spans(b@)[j].1
                    <= b@.len(),
            i <= first@.len(),
            i <= second@.len(),
            names_before(names(a@).skip(i as int), names(b@).skip(i as int)) == names_before(
                names(a@),
                names(b@),
            ),
        decreases first@.len() - i,
    {
        assert(spans(a@)[i as int] == (first@[i as int].0 as int, first@[i as int].1 as int));
        assert(spans(b@)[i as int] == (second@[i as int].0 as int, second@[i as int].1 as int));
        let x: &[u8] = slice_subrange(a, first[i].0, first[i].1);
        let y: &[u8] = slice_subrange(b, second[i].0, second[i].1);
        assert(names(a@).skip(i as int)[0] == x@);
        assert(names(b@).skip(i as int)[0] == y@);
        if !same_bytes(x, y) {
            let p: u8 = rank_of(x);
            let q: u8 = rank_of(y);
            return p < q || (p == q && bytes_precede(x, y));
        }
        assert(names(a@).skip(i as int).skip(1) =~= names(a@).skip(i + 1));
        assert(names(b@).skip(i as int).skip(1) =~= names(b@).skip(i + 1));
        i = i + 1;
    }
    i < second.len()
}

/// Byte strings are ordered by the first byte in which they differ, and one comes before
/// all that go on from it.
pub proof fn bytes_are_ordered_by_their_first_difference(
    common: Seq<u8>,
    a: u8,
    b: u8,
    x: Seq<u8>,
    y: Seq<u8>,
)
    requires
        a != b,
    ensures
        bytes_before(common + seq![a] + x, common + seq![b] + y) <==> a < b,
        bytes_before(common, common + seq![a] + x),
        !bytes_before(common + seq![a] + x, common),
        !bytes_before(common, common),
    decreases common.len(),
{
    let one = common + seq![a] + x;
    let two = common + seq![b] + y;
    if common.len() > 0 {
        bytes_are_ordered_by_their_first_difference(common.skip(1), a, b, x, y);
        assert(one.skip(1) =~= common.skip(1) + seq![a] + x);
        assert(two.skip(1) =~= common.skip(1) + seq![b] + y);
        assert(one[0] == common[0] && two[0] == common[0]);
    } else {
        assert(one[0] == a && two[0] == b);
    }
}

/// Of two different byte strings exactly one comes before the other.
proof fn lemma_bytes_total(a: Seq<u8>, b: Seq<u8>)
    ensures
        bytes_before(a, b) ==> !bytes_before(b, a),
        a != b ==> bytes_before(a, b) || bytes_before(b, a),
    decreases a.len(),
{
    if a.len() > 0 && b.len() > 0 && a[0] == b[0] {
        lemma_bytes_total(a.skip(1), b.skip(1));
        if a.skip(1) == b.skip(1) {
            assert(a =~= seq![a[0]] + a.skip(1));
            assert(b =~= seq![b[0]] + b.skip(1));
        }
    }
    if a.len() == 0 && b.len() == 0 {
        assert(a =~= b);
    }
}

proof fn lemma_names_total(a: Seq<Seq<u8>>, b: Seq<Seq<u8>>)
    ensures
        names_before(a, b) ==> !names_before(b, a),
        a != b ==> names_before(a, b) || names_before(b, a),
    decreases a.len(),
{
    if a.len() > 0 && b.len() > 0 {
        if a[0] == b[0] {
            lemma_names_total(a.skip(1), b.skip(1));
            if a.skip(1) == b.skip(1) {
                assert(a =~= seq![a[0]] + a.skip(1));
                assert(b =~= seq![b[0]] + b.skip(1));
            }
        } else {
            lemma_bytes_total(a[0], b[0]);
        }
    }
    if a.len() == 0 && b.len() == 0 {
        assert(a =~= b);
    }
}

/// Of two paths with different components exactly one comes before the other, and of two
/// spellings of one path neither does.
pub proof fn paths_are_in_an_order(a: Seq<u8>, b: Seq<u8>)
    ensures
        same_components(a, b) ==> !comes_before(a, b),
        !same_components(a, b) ==> (comes_before(a, b) <==> !comes_before(b, a)),
{
    lemma_names_total(names(a), names(b));
}

/// Lists of names are ordered by the first name in which they differ: the directory
/// itself comes first, the directory above after it, and then all others by their bytes.
pub proof fn names_are_ordered_by_their_first_difference(
    common: Seq<Seq<u8>>,
    a: Seq<u8>,
    b: Seq<u8>,
    x: Seq<Seq<u8>>,
    y: Seq<Seq<u8>>,
)
    requires
        a != b,
    ensures
        ({
            let before = names_before(common + seq![a] + x, common + seq![b] + y);
            let here = seq!['.' as u8];
            let above = seq!['.' as u8, '.' as u8];
            if a == here || b == here {
                before <==> a == here
            } else if a == above || b == above {
                before <==> a == above
            } else {
                before <==> bytes_before(a, b)
            }
        }),
        names_before(common, common + seq![a] + x),
        !names_before(common + seq![a] + x, common),
    decreases common.len(),
{
    let one = common + seq![a] + x;
    let two = common + seq![b] + y;
    if common.len() > 0 {
        names_are_ordered_by_their_first_difference(common.skip(1), a, b, x, y);
        assert(one.skip(1) =~= common.skip(1) + seq![a] + x);
        assert(two.skip(1) =~= common.skip(1) + seq![b] + y);
        assert(one[0] == common[0] && two[0] == common[0]);
    } else {
        assert(one[0] == a && two[0] == b);
    }
}

/// Paths are ordered by their names where both are absolute or both are relative; an
/// absolute path comes before a relative one that names something.
pub proof fn paths_are_ordered_by_their_names(a: Seq<u8>, b: Seq<u8>)
    ensures
        rooted(a) == rooted(b) ==> comes_before(a, b) == names_before(names(a), names(b)),
        rooted(a) && !rooted(b) && names(b).len() > 0 ==> comes_before(a, b) && !comes_before(b, a),
        rooted(a) && !rooted(b) && names(b).len() == 0 ==> comes_before(b, a) && !comes_before(a, b),
        rooted(a) <==> exists|rest: Seq<u8>| a == #[trigger] (seq!['/' as u8] + rest),
{
    if rooted(a) {
        assert(a =~= seq!['/' as u8] + a.skip(1));
    }
}

/// Two paths have the same components exactly if they name the same things in the same
/// order, both from the root or both not from it.
pub proof fn spellings_of_one_path_are_the_same(a: Seq<u8>, b: Seq<u8>)
    ensures
        same_components(a, b) <==> {
            &&& rooted(a) == rooted(b)
            &&& names(a).len() == names(b).len()
            &&& forall|i: int| 0 <= i < names(a).len() ==> names(a)[i] == names(b)[i]
        },
{
    if names(a).len() == names(b).len() && (forall|i: int|
        0 <= i < names(a).len() ==> names(a)[i] == names(b)[i]) {
        assert(names(a) =~= names(b));
    }
}

/// What has an extension ends with a dot and the extension, with something before them.
pub proof fn extensions_end_the_name(path: Seq<u8>, stem: Seq<u8>, extension: Seq<u8>, name: Seq<u8>)
    requires
        file_name_of(path) == Some(name),
    ensures
        stem.len() > 0 && name == stem + seq!['.' as u8] + extension ==> extension_is(
            path,
            extension,
        ),
        extension_is(path, extension) ==> exists|front: Seq<u8>|
            front.len() > 0 && name == #[trigger] (front + seq!['.' as u8] + extension),
{
    let mark = seq!['.' as u8] + extension;
    if stem.len() > 0 && name == stem + seq!['.' as u8] + extension {
        assert(name.skip(name.len() - extension.len() - 1) =~= mark);
    }
    if extension_is(path, extension) {
        let front = name.take(name.len() - extension.len() - 1);
        assert(name.skip(name.len() - extension.len() - 1) == mark);
        assert(name =~= front + mark);
        assert(name =~= front + seq!['.' as u8] + extension);
    }
}

/// Every component is shown, where it begins and where it ends, and its name is what
/// stands there.
pub proof fn components_are_shown_whole(path: Seq<u8>, list: Seq<(usize, usize)>)
    ensures
        span_views(list).len() == list.len(),
        forall|i: int|
            0 <= i < list.len() ==> #[trigger] span_views(list)[i] == (
                list[i].0 as int,
                list[i].1 as int,
            ),
        names(path).len() == spans(path).len(),
        forall|i: int|
            0 <= i < spans(path).len() ==> #[trigger] names(path)[i] == path.subrange(
                spans(path)[i].0,
                spans(path)[i].1,
            ),
{
}

} // verus!
