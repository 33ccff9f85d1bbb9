//! Stable identifiers: hashes, slugs and the names of repositories, sessions
//! and key tables.

use vstd::prelude::*;
#[allow(unused_imports)]
use vstd::string::*;

use crate::bytes;
use crate::bytes::{copy_bytes, exact_text, lossy_text};
use crate::error;
use crate::error::{message2, ToolError};
use crate::hex;
use crate::layout;
use crate::path;
use crate::path::{file_name, parent};
use crate::state::SessionMetadata;
use crate::text;
use crate::text::{chars_of, decimal_text, digit, same_text};

verus! {

/// The 64-bit FNV-1a hash of a byte string.
pub open spec fn fnv1a(bytes: Seq<u8>) -> u64
    decreases bytes.len(),
{
    if bytes.len() == 0 {
        0xcbf29ce484222325
    } else {
        (fnv1a(bytes.drop_last()) ^ (bytes.last() as u64)).wrapping_mul(0x100000001b3)
    }
}

/// Sixteen hexadecimal digits: the hash of the UTF-8 encoding of a text.
pub open spec fn hash_text(text: Seq<char>) -> Seq<char> {
    text::hexadecimal(fnv1a(vstd::utf8::encode_utf8(text)) as nat, 16)
}

fn hex_text(n: u64, width: u8) -> (out: String)
    ensures
        out@ == text::hexadecimal(n as nat, width as nat),
    decreases width,
{
    if width == 0 {
        String::new()
    } else {
        let mut out: String = hex_text(n / 16, width - 1);
        out.push(digit((n % 16) as u8));
        out
    }
}

pub fn stable_hash(value: &str) -> (out: String)
    ensures
        out@ == hash_text(value@),
{
    let bytes: &[u8] = value.as_bytes();
    let mut hash: u64 = 0xcbf29ce484222325;
    let mut i: usize = 0;
    assert(bytes@.take(0) =~= Seq::<u8>::empty());
    while i < bytes.len()
        invariant
            i <= bytes@.len(),
            hash == fnv1a(bytes@.take(i as int)),
        decreases bytes@.len() - i,
    {
        hash = (hash ^ (bytes[i] as u64)).wrapping_mul(0x100000001b3);
        assert(bytes@.take(i + 1).drop_last() =~= bytes@.take(i as int));
        i = i + 1;
    }
    assert(bytes@.take(i as int) =~= bytes@);
    hex_text(hash, 16)
}

/// A character that stays as it is in a slug.
pub open spec fn slug_keeps(c: char) -> bool {
    ||| '0' <= c <= '9'
    ||| 'a' <= c <= 'z'
    ||| 'A' <= c <= 'Z'
    ||| c == '-'
    ||| c == '_'
}

/// The text with a hyphen in place of every character that a slug cannot hold.
pub open spec fn slug_of(text: Seq<char>) -> Seq<char> {
    Seq::new(
        text.len(),
        |i: int|
            if slug_keeps(text[i]) {
                text[i]
            } else {
                '-'
            },
    )
}

pub fn slug(value: &str) -> (out: String)
    ensures
        out@ == slug_of(value@),
{
    let chars: Vec<char> = chars_of(value);
    let mut out: String = String::new();
    let mut i: usize = 0;
    while i < chars.len()
        invariant
            chars@ == value@,
            i <= chars@.len(),
            out@ == slug_of(value@).take(i as int),
        decreases chars@.len() - i,
    {
        let c: char = chars[i];
        let keeps: bool = ('0' <= c && c <= '9') || ('a' <= c && c <= 'z') || ('A' <= c && c <= 'Z')
            || c == '-' || c == '_';
        out.push(
            if keeps {
                c
            } else {
                '-'
            },
        );
        assert(slug_of(value@).take(i + 1) =~= slug_of(value@).take(i as int).push(
            slug_of(value@)[i as int],
        ));
        i = i + 1;
    }
    assert(slug_of(value@).take(i as int) =~= slug_of(value@));
    out
}

/// The name of the session that belongs to a worktree.
pub open spec fn session_name_of(repo_id: Seq<char>, worktree_name: Seq<char>) -> Seq<char> {
    "david-"@ + repo_id + "-"@ + hash_text(worktree_name)
}

pub fn session_name(repo_id: &str, worktree_name: &str) -> (out: String)
    ensures
        out@ == session_name_of(repo_id@, worktree_name@),
{
    let mut out: String = "david-".to_owned();
    out.append(repo_id);
    out.append("-");
    out.append(stable_hash(worktree_name).as_str());
    out
}

/// Two worktrees share a session name only within one repository, and only if
/// the hashes of their names collide.
pub proof fn session_names_separate(
    repo_id: Seq<char>,
    name: Seq<char>,
    other_repo_id: Seq<char>,
    other_name: Seq<char>,
)
    requires
        session_name_of(repo_id, name) == session_name_of(other_repo_id, other_name),
    ensures
        repo_id == other_repo_id,
        fnv1a(vstd::utf8::encode_utf8(name)) == fnv1a(vstd::utf8::encode_utf8(other_name)),
{
    let a = session_name_of(repo_id, name);
    let b = session_name_of(other_repo_id, other_name);
    let h = fnv1a(vstd::utf8::encode_utf8(name)) as nat;
    let g = fnv1a(vstd::utf8::encode_utf8(other_name)) as nat;
    text::lemma_hexadecimal_len(h, 16);
    text::lemma_hexadecimal_len(g, 16);
    assert(a.skip(a.len() - 16) =~= text::hexadecimal(h, 16));
    assert(b.skip(b.len() - 16) =~= text::hexadecimal(g, 16));
    assert(a.subrange("david-"@.len() as int, a.len() - 16 - "-"@.len()) =~= repo_id);
    assert(b.subrange("david-"@.len() as int, b.len() - 16 - "-"@.len()) =~= other_repo_id);
    reveal_with_fuel(hexadecimal_limit, 17);
    lemma_hexadecimal_injective(h, g, 16);
}

/// How many numbers `width` hexadecimal digits can tell apart.
pub open spec fn hexadecimal_limit(width: nat) -> nat
    decreases width,
{
    if width == 0 {
        1
    } else {
        16 * hexadecimal_limit((width - 1) as nat)
    }
}

/// Numbers that fit into `width` digits are told apart by them.
pub proof fn lemma_hexadecimal_injective(a: nat, b: nat, width: nat)
    requires
        text::hexadecimal(a, width) == text::hexadecimal(b, width),
        a < hexadecimal_limit(width),
        b < hexadecimal_limit(width),
    ensures
        a == b,
    decreases width,
{
    if width > 0 {
        let short = (width - 1) as nat;
        assert(text::hexadecimal(a, width).drop_last() =~= text::hexadecimal(a / 16, short));
        assert(text::hexadecimal(b, width).drop_last() =~= text::hexadecimal(b / 16, short));
        lemma_hexadecimal_injective(a / 16, b / 16, short);
        assert(text::hexadecimal(a, width).last() == text::digit_char((a % 16) as int));
        assert(text::hexadecimal(b, width).last() == text::digit_char((b % 16) as int));
        hex::lemma_digit_value((a % 16) as int);
        hex::lemma_digit_value((b % 16) as int);
    }
}

/// Every session name starts with the prefix that marks it as managed.
pub proof fn session_names_are_managed(repo_id: Seq<char>, worktree_name: Seq<char>)
    ensures
        text::starts_with(session_name_of(repo_id, worktree_name), "david-"@),
{
    assert(session_name_of(repo_id, worktree_name).take("david-"@.len() as int) =~= "david-"@);
}

/// The last component of a path as text.
pub open spec fn name_of(path: Seq<u8>) -> Option<Seq<char>> {
    match path::file_name_of(path) {
        Some(name) => bytes::utf8_text(name),
        None => None,
    }
}

fn text_name(path: &[u8]) -> (name: Option<String>)
    ensures
        match name {
            Some(name) => name_of(path@) == Some(name@),
            None => name_of(path@) is None,
        },
{
    match file_name(path) {
        Some(name) => exact_text(name.as_slice()),
        None => None,
    }
}

/// The directory that Git keeps inside the main checkout.
pub open spec fn inside_checkout(common_dir: Seq<u8>) -> bool {
    name_of(common_dir) == Some(".git"@)
}

pub fn is_inside_checkout(common_dir: &[u8]) -> (r: bool)
    ensures
        r == inside_checkout(common_dir@),
{
    match text_name(common_dir) {
        Some(name) => same_text(name.as_str(), ".git"),
        None => false,
    }
}

/// The directory around, or the path itself where there is none.
pub open spec fn around(path: Seq<u8>) -> Seq<u8> {
    match path::parent_of(path) {
        Some(above) => above,
        None => path,
    }
}

fn directory_around(path: &[u8]) -> (out: Vec<u8>)
    ensures
        out@ == around(path@),
{
    match parent(path) {
        Some(above) => above,
        None => copy_bytes(path),
    }
}

/// The readable part of a repository identifier: the name of the checkout.
pub open spec fn repository_label(common_dir: Seq<u8>) -> Seq<char> {
    let directory = if inside_checkout(common_dir) {
        around(common_dir)
    } else {
        common_dir
    };
    match name_of(directory) {
        Some(name) => if slug_of(name).len() > 0 {
            slug_of(name)
        } else {
            "repo"@
        },
        None => "repo"@,
    }
}

/// The identifier of the repository with this resolved common directory.
pub open spec fn repository_id_of(common_dir: Seq<u8>) -> Seq<char> {
    repository_label(common_dir) + "-"@ + hash_text(bytes::utf8_lossy(common_dir))
}

/// Identifies a repository by the directory that all its worktrees share.
pub fn repository_id(common_dir: &[u8]) -> (id: String)
    ensures
        id@ == repository_id_of(common_dir@),
{
    let directory: Vec<u8> = if is_inside_checkout(common_dir) {
        directory_around(common_dir)
    } else {
        copy_bytes(common_dir)
    };
    let label: String = match text_name(directory.as_slice()) {
        Some(name) => slug(name.as_str()),
        None => String::new(),
    };
    let mut id: String = if label.as_str().is_empty() {
        "repo".to_owned()
    } else {
        label
    };
    id.append("-");
    id.append(stable_hash(lossy_text(common_dir).as_str()).as_str());
    id
}

/// Two repositories with the same identifier have directories with the same hash.
pub proof fn repository_ids_separate(a: Seq<u8>, b: Seq<u8>)
    requires
        repository_id_of(a) == repository_id_of(b),
    ensures
        fnv1a(vstd::utf8::encode_utf8(bytes::utf8_lossy(a))) == fnv1a(
            vstd::utf8::encode_utf8(bytes::utf8_lossy(b)),
        ),
{
    let one = hash_text(bytes::utf8_lossy(a));
    let two = hash_text(bytes::utf8_lossy(b));
    let x = fnv1a(vstd::utf8::encode_utf8(bytes::utf8_lossy(a)));
    let y = fnv1a(vstd::utf8::encode_utf8(bytes::utf8_lossy(b)));
    text::lemma_hexadecimal_len(x as nat, 16);
    text::lemma_hexadecimal_len(y as nat, 16);
    let id = repository_id_of(a);
    assert(id.skip(id.len() - 16) =~= one);
    assert(id.skip(id.len() - 16) =~= two);
    reveal_with_fuel(hexadecimal_limit, 17);
    lemma_hexadecimal_injective(x as nat, y as nat, 16);
}

/// The directory that a project is named after: the main checkout.
pub open spec fn project_directory(
    common_dir: Seq<u8>,
    first: Option<Seq<u8>>,
    root: Seq<u8>,
) -> Seq<u8> {
    if inside_checkout(common_dir) {
        around(common_dir)
    } else if first is Some {
        first->0
    } else {
        root
    }
}

/// The name of a project; `first` is the first worktree that Git lists, which is
/// of interest only where the common directory is not inside a checkout.
pub fn repository_name(common_dir: &[u8], first: &Option<Vec<u8>>, root: &[u8]) -> (result: Result<
    String,
    ToolError,
>)
    ensures
        ({
            let directory = project_directory(
                common_dir@,
                match *first {
                    Some(path) => Some(path@),
                    None => None,
                },
                root@,
            );
            match result {
                Ok(name) => name_of(directory) == Some(name@),
                Err(e) => name_of(directory) is None && error::is_message(
                    e,
                    "could not determine project name from source directory: "@
                        + bytes::utf8_lossy(directory),
                ),
            }
        }),
{
    let directory: Vec<u8> = if is_inside_checkout(common_dir) {
        directory_around(common_dir)
    } else {
        match first {
            Some(path) => copy_bytes(path.as_slice()),
            None => copy_bytes(root),
        }
    };
    match text_name(directory.as_slice()) {
        Some(name) => Ok(name),
        None => Err(
            message2(
                "could not determine project name from source directory: ",
                lossy_text(directory.as_slice()).as_str(),
            ),
        ),
    }
}

/// A target that matches the session of exactly this name.
pub open spec fn exact_target(session: Seq<char>) -> Seq<char> {
    "="@ + session
}

pub fn exact_session_target(session: &str) -> (target: String)
    ensures
        target@ == exact_target(session@),
{
    let mut target: String = "=".to_owned();
    target.append(session);
    target
}

pub open spec fn key_table_base(session: Seq<char>) -> Seq<char> {
    "david-keys-"@ + hash_text(session)
}

/// The two key tables of a session, of which one is in use.
pub open spec fn key_tables(session: Seq<char>) -> (Seq<char>, Seq<char>) {
    (key_table_base(session) + "-a"@, key_table_base(session) + "-b"@)
}

pub fn session_key_tables(session: &str) -> (tables: (String, String))
    ensures
        (tables.0@, tables.1@) == key_tables(session@),
{
    let mut first: String = "david-keys-".to_owned();
    first.append(stable_hash(session).as_str());
    let mut second: String = first.clone();
    first.append("-a");
    second.append("-b");
    (first, second)
}

/// The two key tables of a session are never the same.
pub proof fn key_tables_differ(session: Seq<char>)
    ensures
        key_tables(session).0 != key_tables(session).1,
{
    reveal_strlit("-a");
    reveal_strlit("-b");
    let (a, b) = key_tables(session);
    assert(a.last() == 'a');
    assert(b.last() == 'b');
}

proof fn lemma_hexadecimal_line(n: nat, width: nat)
    ensures
        !text::hexadecimal(n, width).contains('\n'),
    decreases width,
{
    if width > 0 {
        let before = text::hexadecimal(n / 16, (width - 1) as nat);
        let all = text::hexadecimal(n, width);
        lemma_hexadecimal_line(n / 16, (width - 1) as nat);
        hex::lemma_digit_value((n % 16) as int);
        assert forall|i: int| 0 <= i < all.len() implies all[i] != '\n' by {
            if i < before.len() {
                assert(all[i] == before[i]);
                assert(before.contains(before[i]));
            }
        }
    }
}

/// The names of the key tables are not empty and take up one line.
pub proof fn lemma_key_table(session: Seq<char>)
    ensures
        key_tables(session).0.len() > 0,
        key_tables(session).1.len() > 0,
        !key_tables(session).0.contains('\n'),
        !key_tables(session).1.contains('\n'),
{
    reveal_strlit("david-keys-");
    reveal_strlit("-a");
    reveal_strlit("-b");
    let hash = hash_text(session);
    let (a, b) = key_tables(session);
    let n = 11 + hash.len();
    assert(!hash.contains('\n')) by {
        lemma_hexadecimal_line(fnv1a(vstd::utf8::encode_utf8(session)) as nat, 16);
    }
    assert forall|i: int| 0 <= i < a.len() implies a[i] != '\n' && b[i] != '\n' by {
        if 11 <= i < n {
            assert(a[i] == hash[i - 11] && b[i] == hash[i - 11]);
            assert(hash.contains(hash[i - 11]));
        }
    }
}

/// The room that the left part of the status line takes.
pub open spec fn status_length(project: Seq<char>, worktree: Seq<char>, agent: Seq<char>) -> nat {
    "[DAVID] project:  | worktree:  | agent: "@.len() + project.len() + worktree.len() + agent.len()
}

/// The length to reserve for the left part of the status line.
pub fn status_left_length(metadata: &SessionMetadata) -> (out: String)
    ensures
        out@ == text::decimal(
            status_length(
                metadata.project_name@,
                metadata.worktree_name@,
                metadata.agent_name@,
            ),
        ),
{
    let frame: usize = chars_of("[DAVID] project:  | worktree:  | agent: ").len();
    let project: usize = chars_of(metadata.project_name.as_str()).len();
    let worktree: usize = chars_of(metadata.worktree_name.as_str()).len();
    let agent: usize = chars_of(metadata.agent_name.as_str()).len();
    decimal_text(frame as u128 + project as u128 + worktree as u128 + agent as u128)
}

/// The hash takes in one byte after the other.
pub proof fn hashes_take_in_every_byte(bytes: Seq<u8>, byte: u8)
    ensures
        fnv1a(Seq::empty()) == 0xcbf29ce484222325,
        fnv1a(bytes.push(byte)) == (fnv1a(bytes) ^ (byte as u64)).wrapping_mul(0x100000001b3),
{
    assert(bytes.push(byte).drop_last() =~= bytes);
}

/// A hash is written with sixteen hexadecimal digits, the highest first.
pub proof fn hashes_have_sixteen_digits(text: Seq<char>, n: nat, digit: nat, width: nat)
    requires
        digit < 16,
    ensures
        hash_text(text).len() == 16,
        hash_text(text) == text::hexadecimal(fnv1a(vstd::utf8::encode_utf8(text)) as nat, 16),
        text::hexadecimal(16 * n + digit, width + 1) == text::hexadecimal(n, width).push(
            text::digit_char(digit as int),
        ),
        hex::digit_value(text::digit_char(digit as int)) == Some(digit as u8),
{
    text::lemma_hexadecimal_len(fnv1a(vstd::utf8::encode_utf8(text)) as nat, 16);
    hex::lemma_digit_value(digit as int);
    let all: nat = 16 * n + digit;
    assert(all / 16 == n && all % 16 == digit) by (nonlinear_arith)
        requires
            all == 16 * n + digit,
            digit < 16,
    ;
    assert(((width + 1) - 1) as nat == width);
}

/// A slug keeps letters, digits, hyphens and underscores where they are, and has a hyphen
/// for every other character.
pub proof fn slugs_keep_what_they_can(text: Seq<char>)
    ensures
        slug_of(text).len() == text.len(),
        forall|i: int|
            #![trigger slug_of(text)[i]]
            0 <= i < text.len() ==> slug_of(text)[i] == (if '0' <= text[i] <= '9' || 'a' <= text[i]
                <= 'z' || 'A' <= text[i] <= 'Z' || text[i] == '-' || text[i] == '_' {
                text[i]
            } else {
                '-'
            }),
{
}

/// A repository is identified by the name of its checkout, as far as a slug can hold it,
/// and by the hash of the directory that its worktrees share; and its project has the
/// name of the checkout.
pub proof fn repositories_are_named_after_their_checkout(
    above: Seq<u8>,
    name: Seq<char>,
    first: Option<Seq<u8>>,
    root: Seq<u8>,
)
    requires
        above.len() > 0,
        name.len() > 0,
        layout::is_component(vstd::utf8::encode_utf8(name)),
        vstd::utf8::encode_utf8(name) != path::dot_dot(),
    ensures
        ({
            let checkout = path::joined(above, vstd::utf8::encode_utf8(name));
            let common = path::joined(checkout, vstd::utf8::encode_utf8(".git"@));
            &&& repository_id_of(common) == slug_of(name) + "-"@ + hash_text(
                bytes::utf8_lossy(common),
            )
            &&& project_directory(common, first, root) == checkout
            &&& name_of(checkout) == Some(name)
        }),
{
    let coded = vstd::utf8::encode_utf8(name);
    let git = vstd::utf8::encode_utf8(".git"@);
    let checkout = path::joined(above, coded);
    let common = path::joined(checkout, git);
    reveal_strlit(".git");
    lemma_git_component();
    layout::joined_components_are_the_last(above, coded);
    layout::joined_components_are_the_last(checkout, git);
    layout::parents_are_what_was_joined_to(above, coded, git);
    vstd::utf8::encode_utf8_valid_utf8(name);
    vstd::utf8::encode_utf8_decode_utf8(name);
    vstd::utf8::encode_utf8_valid_utf8(".git"@);
    vstd::utf8::encode_utf8_decode_utf8(".git"@);
    assert(name_of(common) == Some(".git"@));
    assert(around(common) == checkout);
    assert(name_of(checkout) == Some(name));
    assert(slug_of(name).len() > 0);
}

proof fn lemma_git_component()
    ensures
        layout::is_component(vstd::utf8::encode_utf8(".git"@)),
        vstd::utf8::encode_utf8(".git"@) != path::dot_dot(),
{
    reveal_strlit(".git");
    let git = vstd::utf8::encode_utf8(".git"@);
    vstd::utf8::is_ascii_chars_encode_utf8(".git"@);
    assert(".git"@[0] == '.' && ".git"@[1] == 'g' && ".git"@[2] == 'i' && ".git"@[3] == 't');
    assert(git.len() == 4);
    assert(path::dot().len() == 1 && path::dot_dot().len() == 2);
    assert forall|i: int| 0 <= i < 4 implies git[i] != '/' as u8 by {
        assert(".git"@[i] == '.' || ".git"@[i] == 'g' || ".git"@[i] == 'i' || ".git"@[i] == 't');
    }
}

/// A project whose shared directory is not inside a checkout is named after the first
/// worktree that Git lists, and without one after the checkout that was asked from.
pub proof fn other_projects_are_named_after_a_worktree(
    common_dir: Seq<u8>,
    first: Seq<u8>,
    root: Seq<u8>,
)
    requires
        name_of(common_dir) != Some(".git"@),
    ensures
        project_directory(common_dir, Some(first), root) == first,
        project_directory(common_dir, None, root) == root,
{
}

/// The names that a session goes by.
pub proof fn sessions_are_named_like_this(
    repo_id: Seq<char>,
    name: Seq<char>,
    session: Seq<char>,
)
    ensures
        session_name_of(repo_id, name) == "david-"@ + repo_id + "-"@ + hash_text(name),
        exact_target(session) == "="@ + session,
        key_tables(session) == (
            "david-keys-"@ + hash_text(session) + "-a"@,
            "david-keys-"@ + hash_text(session) + "-b"@,
        ),
{
}

/// A repository whose shared directory is not inside a checkout is identified by the name
/// of that directory itself, and one without a usable name by a name of its own; the hash
/// of the directory is always there.
pub proof fn other_repositories_are_named_after_themselves(common_dir: Seq<u8>, name: Seq<char>)
    requires
        name_of(common_dir) != Some(".git"@),
    ensures
        name_of(common_dir) == Some(name) && slug_of(name).len() > 0 ==> repository_id_of(common_dir)
            == slug_of(name) + "-"@ + hash_text(bytes::utf8_lossy(common_dir)),
        name_of(common_dir) == Some(name) && slug_of(name).len() == 0 ==> repository_id_of(
            common_dir,
        ) == "repo"@ + "-"@ + hash_text(bytes::utf8_lossy(common_dir)),
        name_of(common_dir) is None ==> repository_id_of(common_dir) == "repo"@ + "-"@ + hash_text(
            bytes::utf8_lossy(common_dir),
        ),
{
}

} // verus!
