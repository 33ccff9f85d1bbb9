//! Where things are kept: the directories of the tool, the paths of managed
//! worktrees and session files, and the rules that keep them inside.

use vstd::prelude::*;
#[allow(unused_imports)]
use vstd::string::*;

use crate::bytes;
use crate::bytes::copy_bytes;
use crate::error;
use crate::error::{message, message2, ToolError};
use crate::identity;
use crate::identity::stable_hash;
use crate::path;
use crate::path::{component_spans, file_name, is_absolute, is_within, join, join_text, parent};
use crate::text;
use crate::text::{blank, contains_char, prefixed};

verus! {

/// A path below `base`, written as text.
pub open spec fn below(base: Seq<u8>, text: Seq<char>) -> Seq<u8> {
    path::joined(base, vstd::utf8::encode_utf8(text))
}

/// The directories and files that the tool works with.
#[derive(Debug)]
pub struct DavidPaths {
    pub worktrees: Vec<u8>,
    pub sessions: Vec<u8>,
    pub config: Vec<u8>,
}

#[verifier::ext_equal]
pub struct PathsModel {
    pub worktrees: Seq<u8>,
    pub sessions: Seq<u8>,
    pub config: Seq<u8>,
}

impl View for DavidPaths {
    type V = PathsModel;

    open spec fn view(&self) -> PathsModel {
        PathsModel { worktrees: self.worktrees@, sessions: self.sessions@, config: self.config@ }
    }
}

/// The layout in a single directory of the home directory.
pub open spec fn home_layout(home: Seq<u8>) -> PathsModel {
    let root = below(home, ".david"@);
    PathsModel {
        worktrees: below(root, "worktrees"@),
        sessions: below(root, "sessions"@),
        config: below(root, "config.toml"@),
    }
}

/// A base directory: the value of its variable if that is an absolute path,
/// and a fallback in the home directory otherwise.
pub open spec fn base_directory(
    variable: Option<Seq<u8>>,
    home: Seq<u8>,
    fallback: Seq<char>,
) -> Seq<u8> {
    if variable matches Some(value) && path::rooted(value) {
        variable->0
    } else {
        below(home, fallback)
    }
}

/// The layout in the XDG base directories.
pub open spec fn xdg_layout(
    home: Seq<u8>,
    config_home: Option<Seq<u8>>,
    data_home: Option<Seq<u8>>,
    state_home: Option<Seq<u8>>,
) -> PathsModel {
    PathsModel {
        worktrees: below(
            base_directory(data_home, home, ".local/share"@),
            "david/worktrees"@,
        ),
        sessions: below(
            base_directory(state_home, home, ".local/state"@),
            "david/sessions"@,
        ),
        config: below(base_directory(config_home, home, ".config"@), "david/config.toml"@),
    }
}

pub open spec fn optional_bytes(value: Option<Vec<u8>>) -> Option<Seq<u8>> {
    match value {
        Some(bytes) => Some(bytes@),
        None => None,
    }
}

pub open spec fn repository_worktrees_of(paths: PathsModel, repo_id: Seq<char>) -> Seq<u8> {
    below(paths.worktrees, repo_id)
}

/// Where the checkout of a managed worktree is.
pub open spec fn worktree_path_of(
    paths: PathsModel,
    repo_id: Seq<char>,
    name: Seq<char>,
) -> Seq<u8> {
    below(repository_worktrees_of(paths, repo_id), name)
}

/// Where the session of a managed worktree is recorded.
pub open spec fn session_state_path_of(
    paths: PathsModel,
    repo_id: Seq<char>,
    name: Seq<char>,
) -> Seq<u8> {
    below(paths.sessions, repo_id + "-"@ + identity::hash_text(name) + ".state"@)
}

fn base_home(variable: &Option<Vec<u8>>, home: &[u8], fallback: &str) -> (out: Vec<u8>)
    ensures
        out@ == base_directory(optional_bytes(*variable), home@, fallback@),
{
    if let Some(value) = variable {
        if is_absolute(value.as_slice()) {
            return copy_bytes(value.as_slice());
        }
    }
    join_text(home, fallback)
}

/// Whether a resolved path lies where it should: the base below the directory
/// of all worktrees, and the target below the base.
pub open spec fn contained(worktrees: Seq<u8>, base: Option<Seq<u8>>, target: Option<Seq<u8>>) -> bool {
    &&& base is Some
    &&& target is Some
    &&& path::has_prefix(base->0, worktrees)
    &&& path::has_prefix(target->0, base->0)
}

impl DavidPaths {
    pub fn from_home(home: &[u8]) -> (paths: DavidPaths)
        ensures
            paths@ == home_layout(home@),
    {
        let root: Vec<u8> = join_text(home, ".david");
        DavidPaths {
            worktrees: join_text(root.as_slice(), "worktrees"),
            sessions: join_text(root.as_slice(), "sessions"),
            config: join_text(root.as_slice(), "config.toml"),
        }
    }

    pub fn from_base_directories(
        home: &[u8],
        config_home: &Option<Vec<u8>>,
        data_home: &Option<Vec<u8>>,
        state_home: &Option<Vec<u8>>,
    ) -> (paths: DavidPaths)
        ensures
            paths@ == xdg_layout(
                home@,
                optional_bytes(*config_home),
                optional_bytes(*data_home),
                optional_bytes(*state_home),
            ),
    {
        let data: Vec<u8> = base_home(data_home, home, ".local/share");
        let state: Vec<u8> = base_home(state_home, home, ".local/state");
        let config: Vec<u8> = base_home(config_home, home, ".config");
        DavidPaths {
            worktrees: join_text(data.as_slice(), "david/worktrees"),
            sessions: join_text(state.as_slice(), "david/sessions"),
            config: join_text(config.as_slice(), "david/config.toml"),
        }
    }

    /// Whether it is the older layout that is read.
    pub fn is_legacy(in_use: bool, legacy_exists: bool) -> (legacy: bool)
        ensures
            legacy == (!in_use && legacy_exists),
    {
        !in_use && legacy_exists
    }

    /// The layout to use: the base directories, unless there is nothing in them
    /// and the single directory of an older layout exists. Without a home
    /// directory there is none.
    pub fn from_env(
        home: &Option<Vec<u8>>,
        config_home: &Option<Vec<u8>>,
        data_home: &Option<Vec<u8>>,
        state_home: &Option<Vec<u8>>,
        in_use: bool,
        legacy_exists: bool,
    ) -> (result: Result<DavidPaths, ToolError>)
        ensures
            match result {
                Ok(paths) => home matches Some(h) && paths@ == (if !in_use && legacy_exists {
                    home_layout(h@)
                } else {
                    xdg_layout(
                        h@,
                        optional_bytes(*config_home),
                        optional_bytes(*data_home),
                        optional_bytes(*state_home),
                    )
                }),
                Err(e) => home is None && error::is_message(e, "HOME is not set"@),
            },
    {
        match home {
            None => Err(message("HOME is not set")),
            Some(home) => {
                if DavidPaths::is_legacy(in_use, legacy_exists) {
                    Ok(DavidPaths::from_home(home.as_slice()))
                } else {
                    Ok(
                        DavidPaths::from_base_directories(
                            home.as_slice(),
                            config_home,
                            data_home,
                            state_home,
                        ),
                    )
                }
            },
        }
    }

    pub fn config_path(&self) -> (path: &[u8])
        ensures
            path@ == self@.config,
    {
        self.config.as_slice()
    }

    pub fn repository_worktrees(&self, repo_id: &str) -> (path: Vec<u8>)
        ensures
            path@ == repository_worktrees_of(self@, repo_id@),
    {
        join_text(self.worktrees.as_slice(), repo_id)
    }

    pub fn worktree_path(&self, repo_id: &str, name: &str) -> (path: Vec<u8>)
        ensures
            path@ == worktree_path_of(self@, repo_id@, name@),
    {
        join_text(self.repository_worktrees(repo_id).as_slice(), name)
    }

    pub fn session_state_path(&self, repo_id: &str, name: &str) -> (path: Vec<u8>)
        ensures
            path@ == session_state_path_of(self@, repo_id@, name@),
    {
        let mut file: String = repo_id.to_owned();
        file.append("-");
        file.append(stable_hash(name).as_str());
        file.append(".state");
        join_text(self.sessions.as_slice(), file.as_str())
    }

    /// Judges the resolved paths of a worktree: the directory of all worktrees,
    /// that of its repository and its own. The last two are absent if they
    /// could not be resolved.
    pub fn validate_worktree_path(
        name: &str,
        worktrees: &[u8],
        base: &Option<Vec<u8>>,
        target: &Option<Vec<u8>>,
    ) -> (result: Result<(), ToolError>)
        ensures
            match result {
                Ok(()) => contained(worktrees@, optional_bytes(*base), optional_bytes(*target)),
                Err(e) => !contained(worktrees@, optional_bytes(*base), optional_bytes(*target))
                    && error::is_message(
                    e,
                    "managed worktree path escapes the managed directory: "@ + name@,
                ),
            },
    {
        if let (Some(base), Some(target)) = (base, target) {
            if is_within(base.as_slice(), worktrees) && is_within(
                target.as_slice(),
                base.as_slice(),
            ) {
                return Ok(());
            }
        }
        Err(message2("managed worktree path escapes the managed directory: ", name))
    }
}

/// A name that could not be told from an option, or that shows nothing.
pub open spec fn name_unusable(name: Seq<char>) -> bool {
    text::is_blank(name) || text::starts_with(name, "-"@) || name.contains('\0')
}

/// A name that leads out of the directory it is joined to.
pub open spec fn name_escapes(name: Seq<char>) -> bool {
    let path = vstd::utf8::encode_utf8(name);
    path::rooted(path) || path::names(path).contains(path::dot_dot())
}

pub open spec fn worktree_name_problem(name: Seq<char>) -> Option<Seq<char>> {
    if name_unusable(name) {
        Some("worktree name must be a non-empty value that does not start with '-'"@)
    } else if name_escapes(name) {
        Some("worktree name must not escape the managed directory"@)
    } else {
        None
    }
}

fn has_parent_component(name: &[u8]) -> (r: bool)
    ensures
        r == path::names(name@).contains(path::dot_dot()),
{
    let all: Vec<(usize, usize)> = component_spans(name);
    let mut i: usize = 0;
    while i < all.len()
        invariant
            path::span_views(all@) == path::spans(name@),
            i <= all@.len(),
            forall|j: int| 0 <= j < i ==> path::names(name@)[j] != path::dot_dot(),
        decreases all@.len() - i,
    {
        let (from, to): (usize, usize) = all[i];
        proof {
            path::lemma_spans(name@, 0);
            assert(path::spans(name@)[i as int] == (from as int, to as int));
        }
        if to - from == 2 && name[from] == 0x2e && name[from + 1] == 0x2e {
            assert(path::names(name@)[i as int] =~= path::dot_dot());
            return true;
        }
        proof {
            let this = path::names(name@)[i as int];
            if this == path::dot_dot() {
                assert(this.len() == 2 && this[0] == '.' as u8 && this[1] == '.' as u8);
            }
        }
        i = i + 1;
    }
    assert(path::names(name@).len() == all@.len());
    false
}

pub fn validate_worktree_name(name: &str) -> (result: Result<(), ToolError>)
    ensures
        match result {
            Ok(()) => worktree_name_problem(name@) is None,
            Err(e) => worktree_name_problem(name@) matches Some(m) && error::is_message(e, m),
        },
{
    if blank(name) || prefixed(name, "-") || contains_char(name, '\0') {
        return Err(message("worktree name must be a non-empty value that does not start with '-'"));
    }
    let path: &[u8] = name.as_bytes();
    if is_absolute(path) || has_parent_component(path) {
        return Err(message("worktree name must not escape the managed directory"));
    }
    Ok(())
}

/// The components of a path stay in front when something relative is joined.
proof fn lemma_join_spans(base: Seq<u8>, more: Seq<u8>, start: int)
    requires
        base.len() > 0,
        !path::rooted(more),
        0 <= start <= base.len(),
    ensures
        path::spans_from(path::joined(base, more), start) == path::spans_from(base, start)
            + path::spans_from(
            path::joined(base, more),
            path::joined(base, more).len() - more.len(),
        ),
    decreases base.len() - start,
{
    let whole = path::joined(base, more);
    let offset = whole.len() - more.len();
    let slash = '/' as u8;
    let end = start + text::find(base.skip(start), slash);
    text::lemma_find(base.skip(start), slash);
    if start == base.len() && base.last() == slash {
        assert(path::spans_from(base, start) =~= Seq::empty());
        assert(path::spans_from(whole, start) =~= path::spans_from(base, start) + path::spans_from(whole, offset));
    } else {
        let tail = whole.skip(start);
        if end == base.len() {
            assert(base.last() != slash) by {
                if base.last() == slash {
                    assert(base.skip(start)[base.len() - 1 - start] == slash);
                }
            }
            assert(whole[end] == slash);
        } else {
            assert(base.skip(start)[end - start] == slash);
            assert(whole[end] == slash);
        }
        assert forall|i: int| 0 <= i < end - start implies tail[i] != slash by {
            assert(tail[i] == base.skip(start)[i]);
        }
        text::lemma_find_is(tail, slash, end - start);
        assert(whole.subrange(start, end) =~= base.subrange(start, end));
        if end < base.len() {
            lemma_join_spans(base, more, end + 1);
        }
        assert(path::spans_from(whole, start) =~= path::spans_from(base, start) + path::spans_from(whole, offset));
    }
}

/// What is joined adds no components but its own.
proof fn lemma_joined_names(base: Seq<u8>, more: Seq<u8>, start: int, i: int)
    requires
        base.len() > 0,
        !path::rooted(more),
        0 <= start <= more.len(),
        ({
            let whole = path::joined(base, more);
            0 <= i < path::spans_from(whole, whole.len() - more.len() + start).len()
        }),
    ensures
        ({
            let whole = path::joined(base, more);
            let span = path::spans_from(whole, whole.len() - more.len() + start)[i];
            path::spans_from(more, start).map_values(
                |s: (int, int)| more.subrange(s.0, s.1),
            ).contains(whole.subrange(span.0, span.1))
        }),
    decreases more.len() - start,
{
    let whole = path::joined(base, more);
    let offset = whole.len() - more.len();
    let slash = '/' as u8;
    let at = offset + start;
    assert(whole.skip(at) =~= more.skip(start));
    let end = start + text::find(more.skip(start), slash);
    text::lemma_find(more.skip(start), slash);
    let here = path::names_component(whole, at, offset + end);
    assert(whole.subrange(at, offset + end) =~= more.subrange(start, end));
    let own = path::spans_from(more, start).map_values(|s: (int, int)| more.subrange(s.0, s.1));
    let all = path::spans_from(whole, at);
    if here && i == 0 {
        assert(all[0] == (at, offset + end));
        assert(path::spans_from(more, start)[0] == (start, end));
        assert(own[0] == more.subrange(start, end));
    } else {
        let k: int = if here {
            1
        } else {
            0
        };
        assert(end < more.len());
        lemma_joined_names(base, more, end + 1, i - k);
        assert(all[i] == path::spans_from(whole, offset + end + 1)[i - k]);
        let rest = path::spans_from(more, end + 1).map_values(
            |s: (int, int)| more.subrange(s.0, s.1),
        );
        let span = all[i];
        let j = choose|j: int| 0 <= j < rest.len() && rest[j] == whole.subrange(span.0, span.1);
        let m: int = if path::names_component(more, start, end) {
            1
        } else {
            0
        };
        assert(own[j + m] == rest[j]);
    }
}

/// Joining a relative path to a directory gives a path below that directory.
pub proof fn joined_path_is_below(base: Seq<u8>, more: Seq<u8>)
    requires
        base.len() > 0,
        !path::rooted(more),
    ensures
        path::has_prefix(path::joined(base, more), base),
{
    let whole = path::joined(base, more);
    lemma_join_spans(base, more, 0);
    path::lemma_spans(base, 0);
    assert(path::rooted(whole) == path::rooted(base));
    let n = path::names(base).len() as int;
    assert forall|i: int| 0 <= i < n implies path::names(whole)[i] == path::names(base)[i] by {
        assert(path::spans(whole)[i] == path::spans(base)[i]);
        let span = path::spans(base)[i];
        assert(whole.subrange(span.0, span.1) =~= base.subrange(span.0, span.1));
    }
    assert(path::names(whole).take(n) =~= path::names(base));
}

/// The checkout of a worktree with an accepted name lies below the directory of
/// its repository, and no component of the name leads back out.
pub proof fn accepted_names_stay_inside(paths: PathsModel, repo_id: Seq<char>, name: Seq<char>)
    requires
        paths.worktrees.len() > 0,
        worktree_name_problem(name) is None,
    ensures
        path::has_prefix(
            worktree_path_of(paths, repo_id, name),
            repository_worktrees_of(paths, repo_id),
        ),
        forall|i: int|
            path::names(repository_worktrees_of(paths, repo_id)).len() <= i < path::names(
                worktree_path_of(paths, repo_id, name),
            ).len() ==> #[trigger] path::names(worktree_path_of(paths, repo_id, name))[i]
                != path::dot_dot(),
{
    let base = repository_worktrees_of(paths, repo_id);
    let more = vstd::utf8::encode_utf8(name);
    let whole = worktree_path_of(paths, repo_id, name);
    joined_path_is_below(base, more);
    lemma_join_spans(base, more, 0);
    let offset = whole.len() - more.len();
    let n = path::spans(base).len() as int;
    assert forall|i: int| n <= i < path::names(whole).len() implies #[trigger] path::names(
        whole,
    )[i] != path::dot_dot() by {
        lemma_joined_names(base, more, 0, i - n);
        assert(path::spans(whole)[i] == path::spans_from(whole, offset)[i - n]);
        let span = path::spans(whole)[i];
        assert(path::names(more) =~= path::spans_from(more, 0).map_values(
            |s: (int, int)| more.subrange(s.0, s.1),
        ));
        if path::names(whole)[i] == path::dot_dot() {
            assert(path::names(more).contains(path::dot_dot()));
        }
    }
}

/// What lies below a directory lies below everything that the directory lies
/// below.
proof fn lemma_prefix_transitive(path: Seq<u8>, middle: Seq<u8>, base: Seq<u8>)
    requires
        path::has_prefix(path, middle),
        path::has_prefix(middle, base),
    ensures
        path::has_prefix(path, base),
{
    let n = path::names(base).len() as int;
    let m = path::names(middle).len() as int;
    if path::rooted(base) || n > 0 {
        assert(path::names(path).take(m) == path::names(middle));
        assert(path::names(path).take(n) =~= path::names(path).take(m).take(n));
    }
}

/// The identifier of a repository is no absolute path.
proof fn lemma_identifiers_are_relative(common_dir: Seq<u8>)
    ensures
        !path::rooted(vstd::utf8::encode_utf8(identity::repository_id_of(common_dir))),
{
    reveal_strlit("repo");
    let id = identity::repository_id_of(common_dir);
    let label = identity::repository_label(common_dir);
    assert(label.len() > 0);
    assert(id[0] == label[0]);
    assert(identity::slug_keeps(label[0]) || label[0] == '-');
    bytes::lemma_first_byte(id);
}

/// The checkouts of all worktrees of all repositories lie below the directory for
/// worktrees.
pub proof fn worktrees_lie_below_their_directory(
    paths: PathsModel,
    common_dir: Seq<u8>,
    name: Seq<char>,
)
    requires
        paths.worktrees.len() > 0,
        worktree_name_problem(name) is None,
    ensures
        path::has_prefix(
            worktree_path_of(paths, identity::repository_id_of(common_dir), name),
            paths.worktrees,
        ),
{
    let id = identity::repository_id_of(common_dir);
    lemma_identifiers_are_relative(common_dir);
    joined_path_is_below(paths.worktrees, vstd::utf8::encode_utf8(id));
    accepted_names_stay_inside(paths, id, name);
    lemma_prefix_transitive(
        worktree_path_of(paths, id, name),
        repository_worktrees_of(paths, id),
        paths.worktrees,
    );
}

/// The value of a variable, if it is an absolute path.
pub open spec fn if_absolute(variable: Option<Seq<u8>>) -> Option<Seq<u8>> {
    match variable {
        Some(value) => if path::rooted(value) {
            Some(value)
        } else {
            None
        },
        None => None,
    }
}

/// A base directory that is no absolute path counts as not set.
pub proof fn relative_base_directories_are_ignored(
    home: Seq<u8>,
    config_home: Option<Seq<u8>>,
    data_home: Option<Seq<u8>>,
    state_home: Option<Seq<u8>>,
)
    ensures
        xdg_layout(home, config_home, data_home, state_home) == xdg_layout(
            home,
            if_absolute(config_home),
            if_absolute(data_home),
            if_absolute(state_home),
        ),
{
}

/// A search for the deepest existing directory of a path: what is still to be
/// looked at, and the names below it that do not exist, innermost first.
#[derive(Debug)]
pub struct MissingWalk {
    pub current: Vec<u8>,
    pub missing: Vec<Vec<u8>>,
}

/// A path with names joined to it, the last of the list first.
pub open spec fn joined_back(base: Seq<u8>, missing: Seq<Seq<u8>>) -> Seq<u8>
    decreases missing.len(),
{
    if missing.len() == 0 {
        base
    } else {
        joined_back(path::joined(base, missing.last()), missing.drop_last())
    }
}

/// The directory to look at when `current` does not exist.
pub open spec fn next_directory(current: Seq<u8>) -> Seq<u8> {
    match path::parent_of(current) {
        Some(above) => if above.len() > 0 {
            above
        } else {
            path::dot()
        },
        None => path::dot(),
    }
}

impl MissingWalk {
    pub fn new(path: &[u8]) -> (walk: MissingWalk)
        ensures
            walk.current@ == path@,
            bytes::byte_views(walk.missing@) == Seq::<Seq<u8>>::empty(),
    {
        let walk: MissingWalk = MissingWalk { current: copy_bytes(path), missing: Vec::new() };
        assert(bytes::byte_views(walk.missing@) =~= Seq::<Seq<u8>>::empty());
        walk
    }

    /// Takes note that the current path does not exist and moves on to its
    /// parent; false if there is nothing left to move to.
    pub fn not_found(&mut self) -> (moved: bool)
        ensures
            moved == (path::file_name_of(old(self).current@) is Some),
            moved ==> final(self).current@ == next_directory(old(self).current@)
                && bytes::byte_views(final(self).missing@) == bytes::byte_views(
                old(self).missing@,
            ).push(path::file_name_of(old(self).current@)->0),
            !moved ==> *final(self) == *old(self),
    {
        let name: Vec<u8> = match file_name(self.current.as_slice()) {
            Some(name) => name,
            None => {
                return false;
            },
        };
        let above: Vec<u8> = match parent(self.current.as_slice()) {
            Some(above) => if above.len() > 0 {
                above
            } else {
                vec![0x2eu8]
            },
            None => vec![0x2eu8],
        };
        let ghost before = bytes::byte_views(self.missing@);
        self.missing.push(name);
        assert(bytes::byte_views(self.missing@) =~= before.push(name@));
        assert(above@ =~= next_directory(self.current@));
        self.current = above;
        true
    }

    /// The full path, given what the current one resolves to.
    pub fn resolved(&self, canonical: &[u8]) -> (path: Vec<u8>)
        ensures
            path@ == joined_back(canonical@, bytes::byte_views(self.missing@)),
    {
        let mut path: Vec<u8> = copy_bytes(canonical);
        let mut left: usize = self.missing.len();
        let ghost all = bytes::byte_views(self.missing@);
        assert(all.take(left as int) =~= all);
        while left > 0
            invariant
                left <= self.missing@.len(),
                all == bytes::byte_views(self.missing@),
                joined_back(path@, all.take(left as int)) == joined_back(canonical@, all),
            decreases left,
        {
            assert(all.take(left as int).drop_last() =~= all.take(left - 1));
            assert(all.take(left as int).last() == self.missing@[left - 1]@);
            path = join(path.as_slice(), self.missing[left - 1].as_slice());
            left = left - 1;
        }
        assert(all.take(0) =~= Seq::<Seq<u8>>::empty());
        path
    }
}

/// How far a search for an existing directory can still go.
pub open spec fn search_limit(current: Seq<u8>) -> nat {
    if path::file_name_of(current) is Some {
        current.len()
    } else {
        0
    }
}

/// A search for an existing directory comes to an end: every move leaves less to
/// search.
pub proof fn searches_come_to_an_end(current: Seq<u8>)
    requires
        path::file_name_of(current) is Some,
    ensures
        search_limit(next_directory(current)) < search_limit(current),
{
    let slash = '/' as u8;
    let n = path::names(current).len() as int;
    path::lemma_spans(current, 0);
    assert(path::spans(current)[n - 1].1 <= current.len());
    let above = path::parent_of(current)->0;
    if n == 1 && path::rooted(current) {
        text::lemma_find_is(current.skip(0), slash, 0);
        path::lemma_spans(current, 1);
        assert(path::spans(current) =~= path::spans_from(current, 1));
        assert(path::spans(current)[0].0 >= 1);
    }
    if n > 1 {
        assert(path::spans(current)[n - 2].1 < path::spans(current)[n - 1].0);
    }
    assert(above.len() < current.len());
    let here = path::dot();
    assert(path::file_name_of(here) is None) by {
        text::lemma_find(here.skip(0), slash);
        assert(here[0] != slash);
        assert(here.skip(0) =~= here);
        assert(path::spans(here) =~= seq![(0int, 1int)]);
        assert(here.subrange(0, 1) =~= here);
        assert(path::names(here).last() == here);
    }
}

/// A text starts with a separator exactly if its encoding does.
pub proof fn lemma_rooted_text(name: Seq<char>)
    ensures
        path::rooted(vstd::utf8::encode_utf8(name)) <==> name.len() > 0 && name[0] == '/',
{
    let slash = seq!['/'];
    let all = vstd::utf8::encode_utf8(name);
    bytes::lemma_slash();
    bytes::lemma_encoded_prefix(name, slash);
    if path::rooted(all) {
        assert(all.take(1) =~= seq!['/' as u8]);
        assert(name.take(1)[0] == name[0]);
    }
    if name.len() > 0 && name[0] == '/' {
        assert(name.take(1) =~= slash);
        assert(all.take(1)[0] == all[0]);
    }
}

/// A relative path below a directory that does not end in a separator is separated from
/// it by one.
pub proof fn lemma_below(base: Seq<u8>, name: Seq<char>)
    requires
        base.len() > 0,
        base.last() != '/' as u8,
        name.len() > 0 ==> name[0] != '/',
    ensures
        below(base, name) == base + vstd::utf8::encode_utf8(seq!['/'] + name),
{
    lemma_rooted_text(name);
    bytes::lemma_slash();
    bytes::lemma_encode_concat(seq!['/'], name);
    assert(base + seq!['/' as u8] + vstd::utf8::encode_utf8(name) =~= base + (seq!['/' as u8]
        + vstd::utf8::encode_utf8(name)));
}

/// What is joined to a directory is separated from it, unless it is separated already; an
/// absolute path stands for itself.
pub proof fn paths_are_joined_by_one_separator(base: Seq<u8>, more: Seq<u8>)
    ensures
        ({
            let slash = 47u8;
            &&& more.len() > 0 && more[0] == slash ==> path::joined(base, more) == more
            &&& !(more.len() > 0 && more[0] == slash) && base.len() > 0 && base.last() != slash
                ==> path::joined(base, more) == base + seq![slash] + more
            &&& !(more.len() > 0 && more[0] == slash) && (base.len() == 0 || base.last() == slash)
                ==> path::joined(base, more) == base + more
        }),
{
}

/// A name as a single component: no separator, and not the directory itself.
pub open spec fn is_component(name: Seq<u8>) -> bool {
    name.len() > 0 && !name.contains('/' as u8) && name != path::dot()
}

proof fn lemma_component_spans(base: Seq<u8>, name: Seq<u8>)
    requires
        base.len() > 0,
        is_component(name),
    ensures
        ({
            let whole = path::joined(base, name);
            let offset = whole.len() - name.len();
            &&& path::spans(whole) == path::spans(base).push((offset, whole.len() as int))
            &&& whole.subrange(offset, whole.len() as int) == name
            &&& path::names(whole) == path::names(base).push(name)
            &&& path::rooted(whole) == path::rooted(base)
        }),
{
    let slash = '/' as u8;
    let whole = path::joined(base, name);
    let offset = whole.len() - name.len();
    assert(!path::rooted(name)) by {
        assert(name.contains(name[0]));
    }
    lemma_join_spans(base, name, 0);
    assert(whole.skip(offset) =~= name);
    text::lemma_find(name, slash);
    assert(whole.subrange(offset, whole.len() as int) =~= name);
    assert(path::spans_from(whole, offset) =~= seq![(offset, whole.len() as int)]);
    assert(path::spans(whole) =~= path::spans(base).push((offset, whole.len() as int)));
    path::lemma_spans(base, 0);
    let n = path::spans(base).len() as int;
    assert forall|i: int| 0 <= i < n implies path::names(whole)[i] == path::names(base)[i] by {
        let span = path::spans(base)[i];
        assert(path::spans(whole)[i] == span);
        assert(whole.subrange(span.0, span.1) =~= base.subrange(span.0, span.1));
    }
    assert(path::names(whole) =~= path::names(base).push(name));
}

/// A component that is joined to a directory is the last of its components, and what is
/// left of the path below the directory.
pub proof fn joined_components_are_the_last(base: Seq<u8>, name: Seq<u8>)
    requires
        base.len() > 0,
        is_component(name),
    ensures
        path::names(path::joined(base, name)) == path::names(base).push(name),
        name != path::dot_dot() ==> path::file_name_of(path::joined(base, name)) == Some(name),
        path::rooted(base) ==> path::relative(path::joined(base, name), base) == Some(name),
{
    lemma_component_spans(base, name);
    joined_path_is_below(base, name);
    let whole = path::joined(base, name);
    let n = path::names(base).len() as int;
    assert(path::names(whole).last() == name);
    assert(path::spans(whole)[n] == (whole.len() - name.len(), whole.len() as int));
}

/// The parent of what is joined to a directory is the directory.
pub proof fn parents_are_what_was_joined_to(above: Seq<u8>, directory: Seq<u8>, name: Seq<u8>)
    requires
        above.len() > 0,
        is_component(directory),
        is_component(name),
    ensures
        path::parent_of(path::joined(path::joined(above, directory), name)) == Some(
            path::joined(above, directory),
        ),
{
    let base = path::joined(above, directory);
    let whole = path::joined(base, name);
    lemma_component_spans(above, directory);
    lemma_component_spans(base, name);
    let n = path::names(base).len() as int;
    assert(path::spans(whole)[n - 1] == path::spans(base)[n - 1]);
    assert(whole.take(base.len() as int) =~= base);
}

/// Two components that are joined one behind the other are left of the path below the
/// directory, with a separator between them.
pub proof fn nested_components_are_kept(base: Seq<u8>, first: Seq<u8>, second: Seq<u8>)
    requires
        path::rooted(base),
        is_component(first),
        is_component(second),
    ensures
        path::relative(path::joined(path::joined(base, first), second), base) == Some(
            first + seq!['/' as u8] + second,
        ),
{
    let middle = path::joined(base, first);
    let whole = path::joined(middle, second);
    lemma_component_spans(base, first);
    lemma_component_spans(middle, second);
    joined_path_is_below(base, first);
    joined_path_is_below(middle, second);
    lemma_prefix_transitive(whole, middle, base);
    let n = path::names(base).len() as int;
    assert(path::spans(whole)[n] == path::spans(middle)[n]);
    assert(middle.last() == first.last());
    assert(middle.last() != '/' as u8) by {
        assert(first.contains(first.last()));
    }
    assert(whole.subrange(middle.len() - first.len(), whole.len() as int) =~= first + seq![
        '/' as u8,
    ] + second);
}

/// Everything is kept below one directory of the home directory in the older layout.
pub proof fn the_older_layout_is_one_directory(home: Seq<u8>)
    requires
        home.len() > 0,
        home.last() != 47,
    ensures
        home_layout(home).worktrees == home + vstd::utf8::encode_utf8("/.david/worktrees"@),
        home_layout(home).sessions == home + vstd::utf8::encode_utf8("/.david/sessions"@),
        home_layout(home).config == home + vstd::utf8::encode_utf8("/.david/config.toml"@),
{
    reveal_strlit(".david");
    reveal_strlit("worktrees");
    reveal_strlit("sessions");
    reveal_strlit("config.toml");
    reveal_strlit("/.david/worktrees");
    reveal_strlit("/.david/sessions");
    reveal_strlit("/.david/config.toml");
    lemma_below_twice(home, ".david"@, "worktrees"@);
    lemma_below_twice(home, ".david"@, "sessions"@);
    lemma_below_twice(home, ".david"@, "config.toml"@);
    assert(seq!['/'] + ".david"@ + seq!['/'] + "worktrees"@ =~= "/.david/worktrees"@);
    assert(seq!['/'] + ".david"@ + seq!['/'] + "sessions"@ =~= "/.david/sessions"@);
    assert(seq!['/'] + ".david"@ + seq!['/'] + "config.toml"@ =~= "/.david/config.toml"@);
}

proof fn lemma_below_twice(base: Seq<u8>, first: Seq<char>, second: Seq<char>)
    requires
        base.len() > 0,
        base.last() != 47,
        first.len() > 0,
        first[0] != '/',
        first.last() != '/',
        first.last() as u32 <= 0x7f,
        second.len() > 0 ==> second[0] != '/',
    ensures
        below(below(base, first), second) == base + vstd::utf8::encode_utf8(
            seq!['/'] + first + seq!['/'] + second,
        ),
{
    lemma_below(base, first);
    let middle = below(base, first);
    bytes::lemma_last_byte(seq!['/'] + first);
    assert((seq!['/'] + first).last() == first.last());
    assert(middle.last() == first.last() as u32 as u8);
    let last = first.last() as u32;
    vstd::utf8::char_u32_cast(first.last(), last);
    assert(last != 47) by {
        if last == 47 {
            assert(47u32 as char == '/');
        }
    }
    assert(last as u8 != 47);
    lemma_below(middle, second);
    bytes::lemma_encode_concat(seq!['/'] + first, seq!['/'] + second);
    assert(seq!['/'] + first + seq!['/'] + second =~= (seq!['/'] + first) + (seq!['/'] + second));
    assert(below(middle, second) =~= base + (vstd::utf8::encode_utf8(seq!['/'] + first)
        + vstd::utf8::encode_utf8(seq!['/'] + second)));
}

/// Worktrees, sessions and configuration each have their base directory: that of their
/// variable, and otherwise the usual one in the home directory.
pub proof fn every_kind_has_its_base_directory(
    home: Seq<u8>,
    config_home: Seq<u8>,
    data_home: Seq<u8>,
    state_home: Seq<u8>,
)
    requires
        home.len() > 0,
        home.last() != 47,
        path::rooted(config_home) && config_home.last() != 47,
        path::rooted(data_home) && data_home.last() != 47,
        path::rooted(state_home) && state_home.last() != 47,
    ensures
        ({
            let set = xdg_layout(home, Some(config_home), Some(data_home), Some(state_home));
            let unset = xdg_layout(home, None, None, None);
            let text = |t: Seq<char>| vstd::utf8::encode_utf8(t);
            &&& set.worktrees == data_home + text("/david/worktrees"@)
            &&& set.sessions == state_home + text("/david/sessions"@)
            &&& set.config == config_home + text("/david/config.toml"@)
            &&& unset.worktrees == home + text("/.local/share/david/worktrees"@)
            &&& unset.sessions == home + text("/.local/state/david/sessions"@)
            &&& unset.config == home + text("/.config/david/config.toml"@)
        }),
{
    reveal_strlit("david/worktrees");
    reveal_strlit("david/sessions");
    reveal_strlit("david/config.toml");
    reveal_strlit("/david/worktrees");
    reveal_strlit("/david/sessions");
    reveal_strlit("/david/config.toml");
    reveal_strlit(".local/share");
    reveal_strlit(".local/state");
    reveal_strlit(".config");
    reveal_strlit("/.local/share/david/worktrees");
    reveal_strlit("/.local/state/david/sessions");
    reveal_strlit("/.config/david/config.toml");
    lemma_below(data_home, "david/worktrees"@);
    lemma_below(state_home, "david/sessions"@);
    lemma_below(config_home, "david/config.toml"@);
    assert(seq!['/'] + "david/worktrees"@ =~= "/david/worktrees"@);
    assert(seq!['/'] + "david/sessions"@ =~= "/david/sessions"@);
    assert(seq!['/'] + "david/config.toml"@ =~= "/david/config.toml"@);
    lemma_below_twice(home, ".local/share"@, "david/worktrees"@);
    lemma_below_twice(home, ".local/state"@, "david/sessions"@);
    lemma_below_twice(home, ".config"@, "david/config.toml"@);
    assert(seq!['/'] + ".local/share"@ + seq!['/'] + "david/worktrees"@
        =~= "/.local/share/david/worktrees"@);
    assert(seq!['/'] + ".local/state"@ + seq!['/'] + "david/sessions"@
        =~= "/.local/state/david/sessions"@);
    assert(seq!['/'] + ".config"@ + seq!['/'] + "david/config.toml"@
        =~= "/.config/david/config.toml"@);
}

/// A worktree lies below the directory of its repository, under its name, and its session
/// is recorded under the repository and the hash of the name.
pub proof fn worktrees_lie_under_their_name(
    paths: PathsModel,
    repo_id: Seq<char>,
    name: Seq<char>,
)
    requires
        paths.worktrees.len() > 0,
        paths.worktrees.last() != 47,
        paths.sessions.len() > 0,
        paths.sessions.last() != 47,
        repo_id.len() > 0,
        repo_id[0] != '/',
        repo_id.last() != '/',
        repo_id.last() as u32 <= 0x7f,
        name.len() > 0,
        name[0] != '/',
    ensures
        worktree_path_of(paths, repo_id, name) == paths.worktrees + vstd::utf8::encode_utf8(
            seq!['/'] + repo_id + seq!['/'] + name,
        ),
        repository_worktrees_of(paths, repo_id) == paths.worktrees + vstd::utf8::encode_utf8(
            seq!['/'] + repo_id,
        ),
        session_state_path_of(paths, repo_id, name) == paths.sessions + vstd::utf8::encode_utf8(
            seq!['/'] + (repo_id + "-"@ + identity::hash_text(name) + ".state"@),
        ),
{
    lemma_below_twice(paths.worktrees, repo_id, name);
    lemma_below(paths.worktrees, repo_id);
    let file = repo_id + "-"@ + identity::hash_text(name) + ".state"@;
    assert(file[0] == repo_id[0]);
    lemma_below(paths.sessions, file);
}

/// A worktree is accepted where it should lie, and only below the directory of all
/// worktrees.
pub proof fn only_what_lies_inside_is_contained(
    worktrees: Seq<u8>,
    base: Seq<u8>,
    target: Seq<u8>,
    repository: Seq<u8>,
    name: Seq<u8>,
)
    requires
        worktrees.len() > 0,
    ensures
        !path::rooted(repository) && !path::rooted(name) ==> contained(
            worktrees,
            Some(path::joined(worktrees, repository)),
            Some(path::joined(path::joined(worktrees, repository), name)),
        ),
        contained(worktrees, Some(base), Some(target)) <==> path::has_prefix(base, worktrees)
            && path::has_prefix(target, base),
        !contained(worktrees, None, Some(target)),
        !contained(worktrees, Some(base), None),
{
    if !path::rooted(repository) && !path::rooted(name) {
        joined_path_is_below(worktrees, repository);
        joined_path_is_below(path::joined(worktrees, repository), name);
    }
}

/// A path leads back out exactly if one of the pieces between its separators does.
proof fn lemma_dots_are_pieces(path: Seq<u8>, start: int)
    requires
        0 <= start <= path.len(),
    ensures
        path::spans_from(path, start).map_values(
            |span: (int, int)| path.subrange(span.0, span.1),
        ).contains(path::dot_dot()) <==> text::split(path.skip(start), '/' as u8).contains(
            path::dot_dot(),
        ),
    decreases path.len() - start,
{
    let slash = '/' as u8;
    let dots = path::dot_dot();
    let to_name = |span: (int, int)| path.subrange(span.0, span.1);
    let rest = path.skip(start);
    text::lemma_find(rest, slash);
    let k = text::find(rest, slash);
    let end = start + k;
    let piece = rest.take(k);
    assert(path.subrange(start, end) =~= piece);
    let here = path::names_component(path, start, end);
    assert(piece == dots ==> here) by {
        if piece == dots {
            assert(path::dot().len() == 1);
            assert(dots.len() == 2);
        }
    }
    let all = path::spans_from(path, start).map_values(to_name);
    let pieces = text::split(rest, slash);
    if end < path.len() {
        lemma_dots_are_pieces(path, end + 1);
        assert(path.skip(end + 1) =~= rest.skip(k + 1));
        let later = path::spans_from(path, end + 1).map_values(to_name);
        let others = text::split(rest.skip(k + 1), slash);
        assert(pieces =~= seq![piece] + others);
        if here {
            assert(all =~= seq![piece] + later);
            lemma_contains_front(piece, later, dots);
        } else {
            assert(all =~= later);
        }
        lemma_contains_front(piece, others, dots);
    } else {
        assert(rest.take(k) =~= rest);
        assert(pieces =~= seq![rest]);
        assert(pieces[0] == rest);
        if here {
            assert(all =~= seq![piece]);
            assert(all[0] == piece);
        } else {
            assert(all =~= Seq::<Seq<u8>>::empty());
        }
    }
}

proof fn lemma_contains_front(first: Seq<u8>, rest: Seq<Seq<u8>>, wanted: Seq<u8>)
    ensures
        (seq![first] + rest).contains(wanted) <==> first == wanted || rest.contains(wanted),
{
    let all = seq![first] + rest;
    if first == wanted {
        assert(all[0] == wanted);
    }
    if rest.contains(wanted) {
        let i = rest.index_of(wanted);
        assert(all[i + 1] == wanted);
    }
    if all.contains(wanted) && first != wanted {
        let i = all.index_of(wanted);
        assert(rest[i - 1] == wanted);
    }
}

/// Which names a worktree can have: those that show something, do not start with a dash
/// or a separator, hold no NUL, and have no piece that leads back out. The first two and
/// the NUL are told apart from what leads out.
pub proof fn usable_names_are_these(name: Seq<char>)
    ensures
        ({
            let usable = !text::is_blank(name) && name[0] != '-' && !name.contains('\0');
            let inside = name[0] != '/' && !text::split(
                vstd::utf8::encode_utf8(name),
                47u8,
            ).contains(seq![46u8, 46u8]);
            &&& usable && inside ==> worktree_name_problem(name) is None
            &&& !usable ==> worktree_name_problem(name) == Some(
                "worktree name must be a non-empty value that does not start with '-'"@,
            )
            &&& usable && !inside ==> worktree_name_problem(name) == Some(
                "worktree name must not escape the managed directory"@,
            )
        }),
{
    reveal_strlit("-");
    let coded = vstd::utf8::encode_utf8(name);
    lemma_rooted_text(name);
    lemma_dots_are_pieces(coded, 0);
    assert(coded.skip(0) =~= coded);
    assert(path::dot_dot() =~= seq![46u8, 46u8]);
    if name.len() > 0 {
        assert(name.take(1) =~= seq![name[0]]);
        assert("-"@ =~= seq!['-']);
        assert(seq![name[0]][0] == name[0] && seq!['-'][0] == '-');
    } else {
        assert(text::is_blank(name));
    }
}

/// A path that does not exist is put together again from what it resolves to and from what
/// was missing, the last first.
pub proof fn missing_names_are_joined_back(
    base: Seq<u8>,
    missing: Seq<Seq<u8>>,
    name: Seq<u8>,
)
    ensures
        joined_back(base, missing.push(name)) == joined_back(path::joined(base, name), missing),
        joined_back(base, Seq::empty()) == base,
{
    assert(missing.push(name).drop_last() =~= missing);
}

/// A path without separators is its only component, an empty one has none, and neither a
/// separator at the end nor the directory itself behind one counts as a component.
pub proof fn separators_only_part_components(base: Seq<u8>, name: Seq<u8>)
    requires
        base.len() > 0,
        name.len() > 0,
        !name.contains('/' as u8),
    ensures
        path::names(Seq::empty()) == Seq::<Seq<u8>>::empty(),
        path::names(seq!['/' as u8]) == Seq::<Seq<u8>>::empty(),
        path::names(name) == seq![name],
        path::names(base + seq!['/' as u8]) == path::names(base),
        path::names(base + seq!['/' as u8, '.' as u8]) == path::names(base),
{
    let slash = '/' as u8;
    let none = Seq::<u8>::empty();
    let root = seq![slash];
    let dot = seq!['.' as u8];
    text::lemma_find(none.skip(0), slash);
    assert(path::names(none) =~= Seq::<Seq<u8>>::empty());
    text::lemma_find_is(root.skip(0), slash, 0);
    text::lemma_find(root.skip(1), slash);
    assert(path::spans_from(root, 1) =~= Seq::empty());
    assert(path::spans(root) =~= Seq::empty());
    assert(path::names(root) =~= Seq::<Seq<u8>>::empty());
    assert(name.skip(0) =~= name);
    text::lemma_find(name, slash);
    assert(path::spans(name) =~= seq![(0int, name.len() as int)]);
    assert(name.subrange(0, name.len() as int) =~= name);
    assert(path::names(name) =~= seq![name]);
    lemma_nothing_more(base, base + root, base.len() as int, 0);
    lemma_nothing_more(base, base + seq![slash, '.' as u8], base.len() as int, 0);
}

/// A path that goes on with a separator, and then at most with the directory itself, has
/// no more components.
proof fn lemma_nothing_more(base: Seq<u8>, whole: Seq<u8>, end: int, start: int)
    requires
        end == base.len(),
        0 < end,
        0 <= start <= end,
        whole == base + seq!['/' as u8] || whole == base + seq!['/' as u8, '.' as u8],
    ensures
        path::spans_from(whole, start) == path::spans_from(base, start),
        start == 0 ==> path::names(whole) == path::names(base),
    decreases end - start,
{
    let slash = '/' as u8;
    let at = start + text::find(base.skip(start), slash);
    text::lemma_find(base.skip(start), slash);
    let tail = whole.skip(start);
    if at < end {
        assert(base.skip(start)[at - start] == slash);
    }
    assert(whole[at] == slash);
    assert forall|i: int| 0 <= i < at - start implies tail[i] != slash by {
        assert(tail[i] == base.skip(start)[i]);
    }
    text::lemma_find_is(tail, slash, at - start);
    assert(whole.subrange(start, at) =~= base.subrange(start, at));
    if at < end {
        lemma_nothing_more(base, whole, end, at + 1);
    } else {
        let last = whole.skip(end + 1);
        text::lemma_find(last, slash);
        if whole.len() == end + 2 {
            assert(last[0] == '.' as u8);
            assert(whole.subrange(end + 1, end + 2) =~= path::dot());
        }
        assert(path::spans_from(whole, end + 1) =~= Seq::empty());
    }
    assert(path::spans_from(whole, start) =~= path::spans_from(base, start));
    if start == 0 {
        path::lemma_spans(base, 0);
        assert forall|i: int| 0 <= i < path::names(base).len() implies path::names(whole)[i]
            == path::names(base)[i] by {
            let span = path::spans(base)[i];
            assert(whole.subrange(span.0, span.1) =~= base.subrange(span.0, span.1));
        }
        assert(path::names(whole) =~= path::names(base));
    }
}

/// A file is given another name in its own directory.
pub proof fn files_are_renamed_in_their_place(
    above: Seq<u8>,
    directory: Seq<u8>,
    old_name: Seq<u8>,
    new_name: Seq<u8>,
)
    requires
        above.len() > 0,
        is_component(directory),
        is_component(old_name),
        old_name != path::dot_dot(),
    ensures
        path::renamed(path::joined(path::joined(above, directory), old_name), new_name)
            == path::joined(path::joined(above, directory), new_name),
{
    joined_components_are_the_last(path::joined(above, directory), old_name);
    parents_are_what_was_joined_to(above, directory, old_name);
}

} // verus!
