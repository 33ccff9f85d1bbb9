//! Files and where to look for them: the temporary names that files are written
//! under, the lock of a worktree, and the places that may hold a command.

use vstd::prelude::*;
#[allow(unused_imports)]
use vstd::string::*;

use crate::bytes;
use crate::bytes::{exact_text, push_argument, split_bytes, utf8_of};
use crate::identity;
use crate::identity::stable_hash;
use crate::layout;
use crate::path;
use crate::path::{component_spans, file_name, is_absolute, join, join_text, with_file_name};
use crate::text;
use crate::text::decimal_text;

verus! {

/// The name that a file is written under before it takes its place.
pub open spec fn temporary_name(path: Seq<u8>, fallback: Seq<char>, process: nat) -> Seq<char> {
    "."@ + (match identity::name_of(path) {
        Some(name) => name,
        None => fallback,
    }) + ".tmp-"@ + text::decimal(process)
}

pub open spec fn temporary_path_of(path: Seq<u8>, fallback: Seq<char>, process: nat) -> Seq<u8> {
    path::renamed(path, vstd::utf8::encode_utf8(temporary_name(path, fallback, process)))
}

fn temporary_path(path: &[u8], fallback: &str, process: u32) -> (out: Vec<u8>)
    ensures
        out@ == temporary_path_of(path@, fallback@, process as nat),
{
    let name: String = match file_name(path) {
        Some(name) => match exact_text(name.as_slice()) {
            Some(name) => name,
            None => fallback.to_owned(),
        },
        None => fallback.to_owned(),
    };
    let mut file: String = ".".to_owned();
    file.append(name.as_str());
    file.append(".tmp-");
    file.append(decimal_text(process as u128).as_str());
    with_file_name(path, utf8_of(file.as_str()).as_slice())
}

/// Where a configuration is written before it replaces the old one.
pub fn temporary_config(path: &[u8], process: u32) -> (out: Vec<u8>)
    ensures
        out@ == temporary_path_of(path@, "config.toml"@, process as nat),
{
    temporary_path(path, "config.toml", process)
}

/// Where the record of a session is written before it replaces the old one.
pub fn temporary_state(path: &[u8], process: u32) -> (out: Vec<u8>)
    ensures
        out@ == temporary_path_of(path@, "state"@, process as nat),
{
    temporary_path(path, "state", process)
}

/// The file that operations on a worktree lock, in the directory that all
/// worktrees of its repository share.
pub open spec fn lock_path_of(common_dir: Seq<u8>, name: Seq<char>) -> Seq<u8> {
    layout::below(common_dir, "david-"@ + identity::hash_text(name) + ".lock"@)
}

pub fn lock_path(common_dir: &[u8], name: &str) -> (out: Vec<u8>)
    ensures
        out@ == lock_path_of(common_dir@, name@),
{
    let mut file: String = "david-".to_owned();
    file.append(stable_hash(name).as_str());
    file.append(".lock");
    join_text(common_dir, file.as_str())
}

/// The command names a file: it is absolute or has more than one component.
pub open spec fn names_file(command: Seq<u8>) -> bool {
    path::rooted(command) || path::names(command).len() > 1
}

/// The files that a command may stand for: itself, or else a file of that name in
/// one of the directories of the search path.
pub open spec fn candidates_of(command: Seq<u8>, search_path: Option<Seq<u8>>) -> Seq<Seq<u8>> {
    if names_file(command) {
        seq![command]
    } else {
        match search_path {
            Some(directories) => text::split(directories, ':' as u8).map_values(
                |directory: Seq<u8>| path::joined(directory, command),
            ),
            None => Seq::empty(),
        }
    }
}

pub fn command_candidates(command: &str, search_path: &Option<Vec<u8>>) -> (out: Vec<Vec<u8>>)
    ensures
        bytes::byte_views(out@) == candidates_of(
            vstd::utf8::encode_utf8(command@),
            layout::optional_bytes(*search_path),
        ),
{
    let file: Vec<u8> = utf8_of(command);
    let spans: Vec<(usize, usize)> = component_spans(file.as_slice());
    assert(spans@.len() == path::names(file@).len());
    let mut out: Vec<Vec<u8>> = Vec::new();
    assert(bytes::byte_views(out@) =~= Seq::<Seq<u8>>::empty());
    if is_absolute(file.as_slice()) || spans.len() > 1 {
        push_argument(&mut out, file.as_slice());
        assert(bytes::byte_views(out@) =~= seq![file@]);
        return out;
    }
    if let Some(list) = search_path {
        let directories: Vec<Vec<u8>> = split_bytes(list.as_slice(), 0x3a);
        let ghost all = text::split(list@, ':' as u8);
        let ghost join_one = |directory: Seq<u8>| path::joined(directory, file@);
        let mut i: usize = 0;
        assert(bytes::byte_views(out@) =~= all.map_values(join_one).take(0));
        while i < directories.len()
            invariant
                all == text::split(list@, ':' as u8),
                bytes::byte_views(directories@) == all,
                join_one == (|directory: Seq<u8>| path::joined(directory, file@)),
                i <= directories@.len(),
                bytes::byte_views(out@) == all.map_values(join_one).take(i as int),
            decreases directories@.len() - i,
        {
            assert(all[i as int] == directories@[i as int]@);
            let ghost before = bytes::byte_views(out@);
            out.push(join(directories[i].as_slice(), file.as_slice()));
            assert(bytes::byte_views(out@) =~= before.push(
                path::joined(all[i as int], file@),
            ));
            assert(bytes::byte_views(out@) =~= all.map_values(join_one).take(i + 1));
            i = i + 1;
        }
        assert(directories@.len() == bytes::byte_views(directories@).len());
        assert(bytes::byte_views(out@) =~= all.map_values(join_one));
    }
    out
}

/// A file never has the name that it is written under: that one starts with a dot
/// and goes on with the name itself.
pub proof fn temporary_names_differ(path: Seq<u8>, fallback: Seq<char>, process: nat)
    requires
        identity::name_of(path) is Some,
    ensures
        Some(temporary_name(path, fallback, process)) != identity::name_of(path),
{
    reveal_strlit(".");
    let name = identity::name_of(path)->0;
    assert(temporary_name(path, fallback, process).len() > name.len());
}

/// A file is written in its own directory, under its name with a dot before it and the
/// process behind it.
pub proof fn files_are_written_beside_their_place(
    above: Seq<u8>,
    directory: Seq<u8>,
    name: Seq<char>,
    fallback: Seq<char>,
    process: nat,
)
    requires
        above.len() > 0,
        layout::is_component(directory),
        layout::is_component(vstd::utf8::encode_utf8(name)),
        vstd::utf8::encode_utf8(name) != path::dot_dot(),
    ensures
        ({
            let place = path::joined(above, directory);
            temporary_path_of(
                path::joined(place, vstd::utf8::encode_utf8(name)),
                fallback,
                process,
            ) == path::joined(
                place,
                vstd::utf8::encode_utf8("."@ + name + ".tmp-"@ + text::decimal(process)),
            )
        }),
{
    let coded = vstd::utf8::encode_utf8(name);
    layout::joined_components_are_the_last(path::joined(above, directory), coded);
    layout::parents_are_what_was_joined_to(above, directory, coded);
    vstd::utf8::encode_utf8_valid_utf8(name);
    vstd::utf8::encode_utf8_decode_utf8(name);
}

/// All operations on a worktree lock one file, in the directory that all worktrees of the
/// repository share.
pub proof fn worktrees_are_locked_in_their_repository(common_dir: Seq<u8>, name: Seq<char>)
    requires
        common_dir.len() > 0,
        common_dir.last() != 47,
    ensures
        lock_path_of(common_dir, name) == common_dir + vstd::utf8::encode_utf8(
            seq!['/'] + ("david-"@ + identity::hash_text(name) + ".lock"@),
        ),
{
    reveal_strlit("david-");
    layout::lemma_below(common_dir, "david-"@ + identity::hash_text(name) + ".lock"@);
}

/// A command that names a file stands for it; any other is looked for in every directory
/// of the search path, in their order, and without one nowhere.
pub proof fn commands_are_looked_for_in_order(
    command: Seq<u8>,
    directory: Seq<u8>,
    rest: Seq<u8>,
    search_path: Option<Seq<u8>>,
)
    requires
        !directory.contains(':' as u8),
    ensures
        path::rooted(command) || path::names(command).len() > 1 ==> candidates_of(
            command,
            search_path,
        ) == seq![command],
        !path::rooted(command) && path::names(command).len() <= 1 ==> {
            &&& candidates_of(command, None) == Seq::<Seq<u8>>::empty()
            &&& candidates_of(command, Some(directory)) == seq![path::joined(directory, command)]
            &&& candidates_of(command, Some(directory + seq![':' as u8] + rest)) == seq![
                path::joined(directory, command),
            ] + candidates_of(command, Some(rest))
        },
{
    let colon = ':' as u8;
    text::splitting_undoes_joining(directory, rest, colon);
    let to_file = |directory: Seq<u8>| path::joined(directory, command);
    assert(seq![directory].map_values(to_file) =~= seq![path::joined(directory, command)]);
    assert((seq![directory] + text::split(rest, colon)).map_values(to_file) =~= seq![
        path::joined(directory, command),
    ] + text::split(rest, colon).map_values(to_file));
}

} // verus!
