//! What Git is asked, and what its answers mean.

use vstd::prelude::*;
#[allow(unused_imports)]
use vstd::string::*;

use crate::bytes;
use crate::bytes::{copy_bytes, lossy_text, push_argument, push_word, utf8_of, words};
use crate::error;
use crate::error::{message, ToolError};
use crate::path;
use crate::path::{join, same_path};
use crate::process;
use crate::process::{CommandOutput, Invocation, InvocationModel};
use crate::text;
use crate::text::{same_text, trimmed};
use crate::worktree;
use crate::worktree::{Worktree, WorktreeModel};

verus! {

/// A question to Git, or something for it to do.
#[derive(Debug)]
pub enum GitCommand {
    /// Where is the checkout?
    Root,
    /// Where is the directory that all worktrees share?
    CommonDirectory,
    /// Is there a commit?
    Head,
    /// What has changed?
    Status,
    /// Can a branch have this name?
    CheckBranch(String),
    Worktrees,
    AddWorktree { name: String, path: Vec<u8> },
    RemoveWorktree { path: Vec<u8>, force: bool },
    /// Delete a branch if it is still at the commit.
    DeleteBranch { name: String, head: String },
    /// Where would a rebase note the branch that it rebases?
    RebaseNote { apply: bool },
    /// Take note of where a worktree has been moved to.
    Repair,
}

#[verifier::ext_equal]
pub enum GitModel {
    Root,
    CommonDirectory,
    Head,
    Status,
    CheckBranch(Seq<char>),
    Worktrees,
    AddWorktree { name: Seq<char>, path: Seq<u8> },
    RemoveWorktree { path: Seq<u8>, force: bool },
    DeleteBranch { name: Seq<char>, head: Seq<char> },
    RebaseNote { apply: bool },
    Repair,
}

impl View for GitCommand {
    type V = GitModel;

    open spec fn view(&self) -> GitModel {
        match self {
            GitCommand::Root => GitModel::Root,
            GitCommand::CommonDirectory => GitModel::CommonDirectory,
            GitCommand::Head => GitModel::Head,
            GitCommand::Status => GitModel::Status,
            GitCommand::CheckBranch(name) => GitModel::CheckBranch(name@),
            GitCommand::Worktrees => GitModel::Worktrees,
            GitCommand::AddWorktree { name, path } => GitModel::AddWorktree {
                name: name@,
                path: path@,
            },
            GitCommand::RemoveWorktree { path, force } => GitModel::RemoveWorktree {
                path: path@,
                force: *force,
            },
            GitCommand::DeleteBranch { name, head } => GitModel::DeleteBranch {
                name: name@,
                head: head@,
            },
            GitCommand::RebaseNote { apply } => GitModel::RebaseNote { apply: *apply },
            GitCommand::Repair => GitModel::Repair,
        }
    }
}

/// The arguments for a command.
pub open spec fn git_arguments(command: GitModel) -> Seq<Seq<u8>> {
    match command {
        GitModel::Root => bytes::arguments(seq!["rev-parse"@, "--show-toplevel"@]),
        GitModel::CommonDirectory => bytes::arguments(seq!["rev-parse"@, "--git-common-dir"@]),
        GitModel::Head => bytes::arguments(seq!["rev-parse"@, "--verify"@, "HEAD"@]),
        GitModel::Status => bytes::arguments(
            seq!["status"@, "--porcelain=v1"@, "--untracked-files=all"@],
        ),
        GitModel::CheckBranch(name) => bytes::arguments(
            seq!["check-ref-format"@, "--branch"@, name],
        ),
        GitModel::Worktrees => bytes::arguments(
            seq!["worktree"@, "list"@, "--porcelain"@, "-z"@],
        ),
        GitModel::AddWorktree { name, path } => bytes::arguments(
            seq!["worktree"@, "add"@, "-b"@, name],
        ).push(path).push(vstd::utf8::encode_utf8("HEAD"@)),
        GitModel::RemoveWorktree { path, force } => if force {
            bytes::arguments(seq!["worktree"@, "remove"@, "--force"@]).push(path)
        } else {
            bytes::arguments(seq!["worktree"@, "remove"@]).push(path)
        },
        GitModel::DeleteBranch { name, head } => bytes::arguments(
            seq!["update-ref"@, "-d"@, "refs/heads/"@ + name, head],
        ),
        GitModel::RebaseNote { apply } => if apply {
            bytes::arguments(seq!["rev-parse"@, "--git-path"@, "rebase-apply/head-name"@])
        } else {
            bytes::arguments(seq!["rev-parse"@, "--git-path"@, "rebase-merge/head-name"@])
        },
        GitModel::Repair => bytes::arguments(seq!["worktree"@, "repair"@]),
    }
}

impl GitCommand {
    pub fn arguments(&self) -> (out: Vec<Vec<u8>>)
        ensures
            bytes::byte_views(out@) == git_arguments(self@),
    {
        match self {
            GitCommand::Root => {
                let out: Vec<Vec<u8>> = words(&["rev-parse", "--show-toplevel"]);
                assert(bytes::byte_views(out@) =~= git_arguments(self@));
                out
            },
            GitCommand::CommonDirectory => {
                let out: Vec<Vec<u8>> = words(&["rev-parse", "--git-common-dir"]);
                assert(bytes::byte_views(out@) =~= git_arguments(self@));
                out
            },
            GitCommand::Head => {
                let out: Vec<Vec<u8>> = words(&["rev-parse", "--verify", "HEAD"]);
                assert(bytes::byte_views(out@) =~= git_arguments(self@));
                out
            },
            GitCommand::Status => {
                let out: Vec<Vec<u8>> = words(
                    &["status", "--porcelain=v1", "--untracked-files=all"],
                );
                assert(bytes::byte_views(out@) =~= git_arguments(self@));
                out
            },
            GitCommand::CheckBranch(name) => {
                let out: Vec<Vec<u8>> = words(&["check-ref-format", "--branch", name.as_str()]);
                assert(bytes::byte_views(out@) =~= git_arguments(self@));
                out
            },
            GitCommand::Worktrees => {
                let out: Vec<Vec<u8>> = words(&["worktree", "list", "--porcelain", "-z"]);
                assert(bytes::byte_views(out@) =~= git_arguments(self@));
                out
            },
            GitCommand::AddWorktree { name, path } => {
                let mut out: Vec<Vec<u8>> = words(&["worktree", "add", "-b", name.as_str()]);
                push_argument(&mut out, path.as_slice());
                push_word(&mut out, "HEAD");
                assert(bytes::byte_views(out@) =~= git_arguments(self@));
                out
            },
            GitCommand::RemoveWorktree { path, force } => {
                let mut out: Vec<Vec<u8>> = words(&["worktree", "remove"]);
                if *force {
                    push_word(&mut out, "--force");
                }
                push_argument(&mut out, path.as_slice());
                assert(bytes::byte_views(out@) =~= git_arguments(self@));
                out
            },
            GitCommand::DeleteBranch { name, head } => {
                let mut reference: String = "refs/heads/".to_owned();
                reference.append(name.as_str());
                let out: Vec<Vec<u8>> = words(
                    &["update-ref", "-d", reference.as_str(), head.as_str()],
                );
                assert(bytes::byte_views(out@) =~= git_arguments(self@));
                out
            },
            GitCommand::RebaseNote { apply } => {
                let note: &str = if *apply {
                    "rebase-apply/head-name"
                } else {
                    "rebase-merge/head-name"
                };
                let out: Vec<Vec<u8>> = words(&["rev-parse", "--git-path", note]);
                assert(bytes::byte_views(out@) =~= git_arguments(self@));
                out
            },
            GitCommand::Repair => {
                let out: Vec<Vec<u8>> = words(&["worktree", "repair"]);
                assert(bytes::byte_views(out@) =~= git_arguments(self@));
                out
            },
        }
    }
}

/// The Git to run.
#[derive(Debug)]
pub struct Git {
    pub program: Vec<u8>,
}

impl Git {
    pub fn new(program: Vec<u8>) -> (git: Git)
        ensures
            git.program == program,
    {
        Git { program }
    }

    /// What to run for a command.
    pub fn command(&self, cwd: &[u8], command: &GitCommand) -> (out: Invocation)
        ensures
            out@ == (InvocationModel {
                program: self.program@,
                directory: Some(cwd@),
                arguments: git_arguments(command@),
            }),
    {
        Invocation {
            program: copy_bytes(self.program.as_slice()),
            directory: Some(copy_bytes(cwd)),
            arguments: command.arguments(),
        }
    }

    /// What Git has printed, if it ended with success.
    pub fn output(output: CommandOutput) -> (result: Result<Vec<u8>, ToolError>)
        ensures
            match result {
                Ok(stdout) => output.success && stdout == output.stdout,
                Err(e) => !output.success && e@ == process::failure("git"@, output@),
            },
    {
        if output.success {
            Ok(output.stdout)
        } else {
            Err(output.error("git"))
        }
    }

    /// The checkout that Git has named.
    pub fn repository_root(stdout: &[u8]) -> (path: Vec<u8>)
        ensures
            path@ == printed_path(stdout@),
    {
        utf8_of(trimmed(lossy_text(stdout).as_str()).as_str())
    }
}

impl Default for Git {
    fn default() -> (git: Git)
        ensures
            git.program@ == vstd::utf8::encode_utf8("git"@),
    {
        Git::new(utf8_of("git"))
    }
}

/// The path that a program has printed.
pub open spec fn printed_path(stdout: Seq<u8>) -> Seq<u8> {
    vstd::utf8::encode_utf8(text::trim(bytes::utf8_lossy(stdout)))
}

/// The path that Git has named, which may be relative to where it was asked.
pub fn path_from(directory: &[u8], stdout: &[u8]) -> (path: Vec<u8>)
    ensures
        path@ == path::joined(directory@, printed_path(stdout@)),
{
    join(directory, Git::repository_root(stdout).as_slice())
}

/// There are changes if anything was printed.
pub fn source_is_dirty(stdout: &[u8]) -> (dirty: bool)
    ensures
        dirty == (stdout@.len() > 0),
{
    stdout.len() > 0
}

/// A rebase notes the branch that it rebases by its full name.
pub open spec fn rebases(note: Seq<char>, name: Seq<char>) -> bool {
    text::trim(note) == "refs/heads/"@ + name
}

/// Whether a rebase is under way for the branch, given what it has noted.
pub fn rebase_is_for(note: &str, name: &str) -> (r: bool)
    ensures
        r == rebases(note@, name@),
{
    let mut expected: String = "refs/heads/".to_owned();
    expected.append(name);
    same_text(trimmed(note).as_str(), expected.as_str())
}

/// A worktree and what its path resolves to.
#[derive(Debug)]
pub struct Candidate {
    pub worktree: Worktree,
    pub resolved: Vec<u8>,
    pub is_directory: bool,
}

#[verifier::ext_equal]
pub struct CandidateModel {
    pub worktree: WorktreeModel,
    pub resolved: Seq<u8>,
    pub is_directory: bool,
}

impl View for Candidate {
    type V = CandidateModel;

    open spec fn view(&self) -> CandidateModel {
        CandidateModel {
            worktree: self.worktree@,
            resolved: self.resolved@,
            is_directory: self.is_directory,
        }
    }
}

/// The worktree lies at the target: both resolve to the same path, or they are
/// written the same.
pub open spec fn lies_at(
    candidate: CandidateModel,
    expected: Option<Seq<u8>>,
    target: Seq<u8>,
) -> bool {
    ||| expected matches Some(resolved) && path::same_components(resolved, candidate.resolved)
    ||| path::same_components(candidate.worktree.path, target)
}

/// The first worktree of a list that lies at the target.
pub open spec fn first_at(
    candidates: Seq<CandidateModel>,
    expected: Option<Seq<u8>>,
    target: Seq<u8>,
) -> Option<WorktreeModel>
    decreases candidates.len(),
{
    if candidates.len() == 0 {
        None
    } else if lies_at(candidates[0], expected, target) {
        Some(candidates[0].worktree)
    } else {
        first_at(candidates.skip(1), expected, target)
    }
}

pub open spec fn candidate_views(list: Seq<Candidate>) -> Seq<CandidateModel> {
    list.map_values(|candidate: Candidate| candidate@)
}

pub open spec fn resolved_view(expected: Option<Vec<u8>>) -> Option<Seq<u8>> {
    match expected {
        Some(path) => Some(path@),
        None => None,
    }
}

/// Finds the worktree that lies at the target; `expected` is what the target
/// resolves to, if it does.
pub fn find_worktree(candidates: &Vec<Candidate>, expected: &Option<Vec<u8>>, target: &[u8]) -> (out:
    Option<Worktree>)
    ensures
        worktree::optional_worktree(out) == first_at(
            candidate_views(candidates@),
            resolved_view(*expected),
            target@,
        ),
{
    let ghost all = candidate_views(candidates@);
    let mut i: usize = 0;
    assert(all.skip(0) =~= all);
    while i < candidates.len()
        invariant
            all == candidate_views(candidates@),
            i <= candidates@.len(),
            first_at(all.skip(i as int), resolved_view(*expected), target@) == first_at(
                all,
                resolved_view(*expected),
                target@,
            ),
        decreases candidates@.len() - i,
    {
        assert(all.skip(i as int)[0] == candidates@[i as int]@);
        let resolves: bool = match expected {
            Some(path) => same_path(path.as_slice(), candidates[i].resolved.as_slice()),
            None => false,
        };
        if resolves || same_path(candidates[i].worktree.path.as_slice(), target) {
            return Some(candidates[i].worktree.copy());
        }
        assert(all.skip(i as int).skip(1) =~= all.skip(i + 1));
        i = i + 1;
    }
    None
}

/// The first worktree of a list that is not the target and has a directory.
pub open spec fn first_other(candidates: Seq<CandidateModel>, target: Seq<u8>) -> Option<Seq<u8>>
    decreases candidates.len(),
{
    if candidates.len() == 0 {
        None
    } else if !path::same_components(candidates[0].resolved, target) && candidates[0].is_directory {
        Some(candidates[0].worktree.path)
    } else {
        first_other(candidates.skip(1), target)
    }
}

/// Where to delete a branch from, if there is such a place.
pub open spec fn branch_root_of(
    root: Seq<u8>,
    root_resolved: Seq<u8>,
    target: Seq<u8>,
    candidates: Seq<CandidateModel>,
) -> Option<Seq<u8>> {
    if path::same_components(root_resolved, target) {
        first_other(candidates, target)
    } else {
        Some(root)
    }
}

/// Where to delete a branch from once the target is gone: here, unless this is
/// the target itself. `root_resolved` and `target` are resolved paths.
pub fn branch_command_root(
    root: &[u8],
    root_resolved: &[u8],
    target: &[u8],
    candidates: &Vec<Candidate>,
) -> (result: Result<Vec<u8>, ToolError>)
    ensures
        match result {
            Ok(directory) => branch_root_of(
                root@,
                root_resolved@,
                target@,
                candidate_views(candidates@),
            ) == Some(directory@),
            Err(e) => branch_root_of(
                root@,
                root_resolved@,
                target@,
                candidate_views(candidates@),
            ) is None && error::is_message(
                e,
                "cannot remove the current worktree without another worktree to operate from"@,
            ),
        },
{
    if !same_path(root_resolved, target) {
        return Ok(copy_bytes(root));
    }
    let ghost all = candidate_views(candidates@);
    let mut i: usize = 0;
    assert(all.skip(0) =~= all);
    while i < candidates.len()
        invariant
            path::same_components(root_resolved@, target@),
            all == candidate_views(candidates@),
            i <= candidates@.len(),
            first_other(all.skip(i as int), target@) == first_other(all, target@),
        decreases candidates@.len() - i,
    {
        assert(all.skip(i as int)[0] == candidates@[i as int]@);
        if !same_path(candidates[i].resolved.as_slice(), target) && candidates[i].is_directory {
            return Ok(copy_bytes(candidates[i].worktree.path.as_slice()));
        }
        assert(all.skip(i as int).skip(1) =~= all.skip(i + 1));
        i = i + 1;
    }
    Err(message("cannot remove the current worktree without another worktree to operate from"))
}

/// The worktree that is found, if any, is one of the list and lies at the target,
/// and if none is found, none does.
pub proof fn found_worktrees_lie_at_the_target(
    candidates: Seq<CandidateModel>,
    expected: Option<Seq<u8>>,
    target: Seq<u8>,
)
    ensures
        match first_at(candidates, expected, target) {
            Some(worktree) => exists|i: int|
                0 <= i < candidates.len() && lies_at(#[trigger] candidates[i], expected, target)
                    && candidates[i].worktree == worktree,
            None => forall|i: int|
                0 <= i < candidates.len() ==> !lies_at(
                    #[trigger] candidates[i],
                    expected,
                    target,
                ),
        },
    decreases candidates.len(),
{
    if candidates.len() > 0 && !lies_at(candidates[0], expected, target) {
        let rest = candidates.skip(1);
        found_worktrees_lie_at_the_target(rest, expected, target);
        match first_at(rest, expected, target) {
            Some(worktree) => {
                let i = choose|i: int|
                    0 <= i < rest.len() && lies_at(#[trigger] rest[i], expected, target)
                        && rest[i].worktree == worktree;
                assert(candidates[i + 1] == rest[i]);
            },
            None => {
                assert forall|i: int| 0 <= i < candidates.len() implies !lies_at(
                    #[trigger] candidates[i],
                    expected,
                    target,
                ) by {
                    if i > 0 {
                        assert(candidates[i] == rest[i - 1]);
                    }
                }
            },
        }
    }
}

/// What Git is asked for, word by word.
pub proof fn git_is_asked_like_this(name: Seq<char>, head: Seq<char>)
    ensures
        git_arguments(GitModel::Root) == bytes::arguments(seq!["rev-parse"@, "--show-toplevel"@]),
        git_arguments(GitModel::CommonDirectory) == bytes::arguments(
            seq!["rev-parse"@, "--git-common-dir"@],
        ),
        git_arguments(GitModel::Head) == bytes::arguments(seq!["rev-parse"@, "--verify"@, "HEAD"@]),
        git_arguments(GitModel::Status) == bytes::arguments(
            seq!["status"@, "--porcelain=v1"@, "--untracked-files=all"@],
        ),
        git_arguments(GitModel::CheckBranch(name)) == bytes::arguments(
            seq!["check-ref-format"@, "--branch"@, name],
        ),
        git_arguments(GitModel::Worktrees) == bytes::arguments(
            seq!["worktree"@, "list"@, "--porcelain"@, "-z"@],
        ),
        git_arguments(GitModel::DeleteBranch { name, head }) == bytes::arguments(
            seq!["update-ref"@, "-d"@, "refs/heads/"@ + name, head],
        ),
        git_arguments(GitModel::RebaseNote { apply: true }) == bytes::arguments(
            seq!["rev-parse"@, "--git-path"@, "rebase-apply/head-name"@],
        ),
        git_arguments(GitModel::RebaseNote { apply: false }) == bytes::arguments(
            seq!["rev-parse"@, "--git-path"@, "rebase-merge/head-name"@],
        ),
        git_arguments(GitModel::Repair) == bytes::arguments(seq!["worktree"@, "repair"@]),
{
}

/// A worktree is created at its path, from the commit in use, on a new branch of its
/// name; and it is removed by its path, by force exactly if that is asked for.
pub proof fn worktrees_come_and_go_by_their_path(name: Seq<char>, path: Seq<u8>)
    ensures
        ({
            let added = git_arguments(GitModel::AddWorktree { name, path });
            let removed = git_arguments(GitModel::RemoveWorktree { path, force: false });
            let forced = git_arguments(GitModel::RemoveWorktree { path, force: true });
            let word = |text: Seq<char>| vstd::utf8::encode_utf8(text);
            &&& added.len() == 6
            &&& added[0] == word("worktree"@) && added[1] == word("add"@)
            &&& added[2] == word("-b"@) && added[3] == word(name)
            &&& added[4] == path && added[5] == word("HEAD"@)
            &&& removed.len() == 3
            &&& removed[0] == word("worktree"@) && removed[1] == word("remove"@)
            &&& removed[2] == path
            &&& forced == removed.insert(2, word("--force"@))
        }),
{
    let removed = git_arguments(GitModel::RemoveWorktree { path, force: false });
    let forced = git_arguments(GitModel::RemoveWorktree { path, force: true });
    assert(forced =~= removed.insert(2, vstd::utf8::encode_utf8("--force"@)));
}

/// Words are handed to a program one by one, each in UTF-8.
pub proof fn words_are_arguments(words: Seq<Seq<char>>)
    ensures
        bytes::arguments(words).len() == words.len(),
        forall|i: int|
            0 <= i < words.len() ==> #[trigger] bytes::arguments(words)[i]
                == vstd::utf8::encode_utf8(words[i]),
{
}

/// A path is printed with white space around it that does not belong to it.
pub proof fn printed_paths_are_trimmed(before: Seq<char>, path: Seq<char>, behind: Seq<char>)
    requires
        text::is_blank(before),
        text::is_blank(behind),
        path.len() > 0,
        !text::is_white_space(path[0]),
        !text::is_white_space(path.last()),
    ensures
        printed_path(vstd::utf8::encode_utf8(before + path + behind)) == vstd::utf8::encode_utf8(
            path,
        ),
{
    bytes::lemma_lossless(before + path + behind);
    text::trimming_takes_the_white_space_around(before, path, behind);
}

/// A rebase is for the branch that it has noted, by its full name on a line, and for
/// no other.
pub proof fn rebases_are_for_one_branch(name: Seq<char>, other: Seq<char>)
    requires
        name.len() > 0,
        !text::is_white_space(name.last()),
    ensures
        rebases("refs/heads/"@ + name + "\n"@, other) <==> name == other,
{
    reveal_strlit("refs/heads/");
    reveal_strlit("\n");
    let noted = "refs/heads/"@ + name;
    let none = Seq::<char>::empty();
    assert(noted[0] == 'r');
    assert(noted.last() == name.last());
    text::trimming_takes_the_white_space_around(none, noted, "\n"@);
    assert(none + noted + "\n"@ =~= "refs/heads/"@ + name + "\n"@);
    if "refs/heads/"@ + name == "refs/heads/"@ + other {
        assert(("refs/heads/"@ + name).skip(11) =~= name);
        assert(("refs/heads/"@ + other).skip(11) =~= other);
    }
}

/// A worktree that is written like the target, or that resolves to the same path, lies
/// at it.
pub proof fn worktrees_lie_where_their_path_leads(
    candidate: CandidateModel,
    resolved: Seq<u8>,
    target: Seq<u8>,
)
    ensures
        candidate.worktree.path == target ==> lies_at(candidate, None, target) && lies_at(
            candidate,
            Some(resolved),
            target,
        ),
        candidate.resolved == resolved ==> lies_at(candidate, Some(resolved), target),
        lies_at(candidate, None, target) ==> path::same_components(candidate.worktree.path, target),
        lies_at(candidate, Some(resolved), target) ==> path::same_components(
            candidate.worktree.path,
            target,
        ) || path::same_components(resolved, candidate.resolved),
{
}

/// The first worktree of a list that lies at the target is the one that is found.
pub proof fn the_first_worktree_at_the_target_is_found(
    candidates: Seq<CandidateModel>,
    expected: Option<Seq<u8>>,
    target: Seq<u8>,
    at: int,
)
    requires
        0 <= at < candidates.len(),
        lies_at(candidates[at], expected, target),
        forall|i: int| 0 <= i < at ==> !lies_at(#[trigger] candidates[i], expected, target),
    ensures
        first_at(candidates, expected, target) == Some(candidates[at].worktree),
    decreases at,
{
    if at > 0 {
        let rest = candidates.skip(1);
        assert(!lies_at(candidates[0], expected, target));
        assert forall|i: int| 0 <= i < at - 1 implies !lies_at(
            #[trigger] rest[i],
            expected,
            target,
        ) by {
            assert(rest[i] == candidates[i + 1]);
        }
        the_first_worktree_at_the_target_is_found(rest, expected, target, at - 1);
    }
}

/// A branch is deleted from where the tool was called, unless that is the worktree which
/// is removed; and then from the first other worktree that has a directory, if any has.
pub proof fn branches_are_deleted_from_elsewhere(
    root: Seq<u8>,
    root_resolved: Seq<u8>,
    target: Seq<u8>,
    candidates: Seq<CandidateModel>,
    at: int,
)
    requires
        0 <= at <= candidates.len(),
        forall|i: int|
            0 <= i < at ==> path::same_components((#[trigger] candidates[i]).resolved, target)
                || !candidates[i].is_directory,
        at < candidates.len() ==> !path::same_components(candidates[at].resolved, target)
            && candidates[at].is_directory,
    ensures
        !path::same_components(root_resolved, target) ==> branch_root_of(
            root,
            root_resolved,
            target,
            candidates,
        ) == Some(root),
        path::same_components(root_resolved, target) ==> branch_root_of(
            root,
            root_resolved,
            target,
            candidates,
        ) == (if at < candidates.len() {
            Some(candidates[at].worktree.path)
        } else {
            None::<Seq<u8>>
        }),
{
    lemma_first_other(candidates, target, at);
}

proof fn lemma_first_other(candidates: Seq<CandidateModel>, target: Seq<u8>, at: int)
    requires
        0 <= at <= candidates.len(),
        forall|i: int|
            0 <= i < at ==> path::same_components((#[trigger] candidates[i]).resolved, target)
                || !candidates[i].is_directory,
        at < candidates.len() ==> !path::same_components(candidates[at].resolved, target)
            && candidates[at].is_directory,
    ensures
        first_other(candidates, target) == (if at < candidates.len() {
            Some(candidates[at].worktree.path)
        } else {
            None::<Seq<u8>>
        }),
    decreases candidates.len(),
{
    if at > 0 {
        let rest = candidates.skip(1);
        assert(path::same_components(candidates[0].resolved, target)
            || !candidates[0].is_directory);
        assert forall|i: int| 0 <= i < at - 1 implies path::same_components(
            (#[trigger] rest[i]).resolved,
            target,
        ) || !rest[i].is_directory by {
            assert(rest[i] == candidates[i + 1]);
        }
        lemma_first_other(rest, target, at - 1);
    }
}

} // verus!
