//! Sessions that live only in this process: an agent that takes over the
//! terminal, with nothing to come back to.

use vstd::prelude::*;
#[allow(unused_imports)]
use vstd::string::*;

use crate::bytes::copy_bytes;
use crate::error;
use crate::error::{message, message3, ToolError};
use crate::layout;
use crate::path;
use crate::path::{has_extension, is_absolute, join_text, path_precedes, same_path};
use crate::state::SessionMetadata;
use crate::text;
use crate::text::{lines_of, same_text};

verus! {

/// A session of this process.
#[derive(Debug)]
pub struct DirectSession {
    pub name: String,
    pub cwd: Vec<u8>,
    pub metadata: Option<SessionMetadata>,
    /// Someone has claimed the start of the agent.
    pub reserved: bool,
}

#[verifier::ext_equal]
pub struct DirectModel {
    pub cwd: Seq<u8>,
    /// Project, worktree and agent.
    pub metadata: Option<(Seq<char>, Seq<char>, Seq<char>)>,
    pub reserved: bool,
}

pub open spec fn metadata_view(metadata: SessionMetadata) -> (Seq<char>, Seq<char>, Seq<char>) {
    (metadata.project_name@, metadata.worktree_name@, metadata.agent_name@)
}

pub open spec fn optional_metadata(metadata: Option<SessionMetadata>) -> Option<
    (Seq<char>, Seq<char>, Seq<char>),
> {
    match metadata {
        Some(metadata) => Some(metadata_view(metadata)),
        None => None,
    }
}

impl View for DirectSession {
    type V = DirectModel;

    open spec fn view(&self) -> DirectModel {
        DirectModel {
            cwd: self.cwd@,
            metadata: optional_metadata(self.metadata),
            reserved: self.reserved,
        }
    }
}

/// The sessions of this process, by name.
#[derive(Debug)]
pub struct DirectSessions {
    pub sessions: Vec<DirectSession>,
}

pub open spec fn table_of(sessions: Seq<DirectSession>) -> Map<Seq<char>, DirectModel>
    decreases sessions.len(),
{
    if sessions.len() == 0 {
        Map::empty()
    } else {
        table_of(sessions.drop_last()).insert(sessions.last().name@, sessions.last()@)
    }
}

/// No two sessions have the same name.
pub open spec fn distinct(sessions: Seq<DirectSession>) -> bool {
    forall|i: int, j: int|
        0 <= i < j < sessions.len() ==> (#[trigger] sessions[i]).name@ != (
        #[trigger] sessions[j]).name@
}

impl View for DirectSessions {
    type V = Map<Seq<char>, DirectModel>;

    open spec fn view(&self) -> Map<Seq<char>, DirectModel> {
        table_of(self.sessions@)
    }
}

/// What a table of sessions with different names holds.
proof fn lemma_table(sessions: Seq<DirectSession>)
    requires
        distinct(sessions),
    ensures
        forall|i: int|
            0 <= i < sessions.len() ==> table_of(sessions).dom().contains(
                (#[trigger] sessions[i]).name@,
            ) && table_of(sessions)[sessions[i].name@] == sessions[i]@,
        forall|name: Seq<char>|
            table_of(sessions).dom().contains(name) ==> exists|i: int|
                0 <= i < sessions.len() && (#[trigger] sessions[i]).name@ == name,
    decreases sessions.len(),
{
    if sessions.len() > 0 {
        let front = sessions.drop_last();
        let n = sessions.len() - 1;
        assert(distinct(front)) by {
            assert forall|i: int, j: int| 0 <= i < j < front.len() implies (
            #[trigger] front[i]).name@ != (#[trigger] front[j]).name@ by {
                assert(front[i] == sessions[i]);
                assert(front[j] == sessions[j]);
            }
        }
        lemma_table(front);
        assert forall|i: int| 0 <= i < sessions.len() implies table_of(sessions).dom().contains(
            (#[trigger] sessions[i]).name@,
        ) && table_of(sessions)[sessions[i].name@] == sessions[i]@ by {
            if i < n {
                assert(front[i] == sessions[i]);
                assert(sessions[i].name@ != sessions[n].name@);
            }
        }
        assert forall|name: Seq<char>| table_of(sessions).dom().contains(name) implies exists|i: int|
            0 <= i < sessions.len() && (#[trigger] sessions[i]).name@ == name by {
            if name == sessions[n].name@ {
                assert(sessions[n].name@ == name);
            } else {
                assert(table_of(front).dom().contains(name));
                let i = choose|i: int| 0 <= i < front.len() && (#[trigger] front[i]).name@ == name;
                assert(front[i] == sessions[i]);
                assert(sessions[i].name@ == name);
            }
        }
    }
}

/// A table is determined by what it holds.
proof fn lemma_same_table(sessions: Seq<DirectSession>, table: Map<Seq<char>, DirectModel>)
    requires
        distinct(sessions),
        forall|i: int|
            0 <= i < sessions.len() ==> table.dom().contains((#[trigger] sessions[i]).name@)
                && table[sessions[i].name@] == sessions[i]@,
        forall|name: Seq<char>|
            table.dom().contains(name) ==> exists|i: int|
                0 <= i < sessions.len() && (#[trigger] sessions[i]).name@ == name,
    ensures
        table_of(sessions) == table,
{
    lemma_table(sessions);
    assert forall|name: Seq<char>| table_of(sessions).dom().contains(name) == table.dom().contains(
        name,
    ) by {
        if table_of(sessions).dom().contains(name) {
            let i = choose|i: int|
                0 <= i < sessions.len() && (#[trigger] sessions[i]).name@ == name;
            assert(sessions[i].name@ == name);
        }
        if table.dom().contains(name) {
            let i = choose|i: int|
                0 <= i < sessions.len() && (#[trigger] sessions[i]).name@ == name;
            assert(sessions[i].name@ == name);
        }
    }
    assert forall|name: Seq<char>| table_of(sessions).dom().contains(name) implies table_of(
        sessions,
    )[name] == table[name] by {
        let i = choose|i: int| 0 <= i < sessions.len() && (#[trigger] sessions[i]).name@ == name;
        assert(sessions[i].name@ == name);
    }
    assert(table_of(sessions) =~= table);
}

pub open spec fn no_longer_exists(name: Seq<char>) -> Seq<char> {
    "direct session "@ + name + " no longer exists"@
}

fn vanished(name: &str) -> (e: ToolError)
    ensures
        error::is_message(e, no_longer_exists(name@)),
{
    message3("direct session ", name, " no longer exists")
}

impl DirectSessions {
    pub open spec fn well_formed(&self) -> bool {
        distinct(self.sessions@)
    }

    pub fn new() -> (sessions: DirectSessions)
        ensures
            sessions@ == Map::<Seq<char>, DirectModel>::empty(),
            sessions.well_formed(),
    {
        DirectSessions { sessions: Vec::new() }
    }

    fn position(&self, name: &str) -> (at: usize)
        requires
            self.well_formed(),
        ensures
            at <= self.sessions@.len(),
            at < self.sessions@.len() ==> self.sessions@[at as int].name@ == name@
                && self@.dom().contains(name@) && self@[name@] == self.sessions@[at as int]@,
            at == self.sessions@.len() ==> !self@.dom().contains(name@) && forall|j: int|
                0 <= j < at ==> (#[trigger] self.sessions@[j]).name@ != name@,
    {
        proof {
            lemma_table(self.sessions@);
        }
        let mut i: usize = 0;
        while i < self.sessions.len()
            invariant
                i <= self.sessions@.len(),
                forall|j: int| 0 <= j < i ==> (#[trigger] self.sessions@[j]).name@ != name@,
                forall|j: int|
                    0 <= j < self.sessions@.len() ==> self@.dom().contains(
                        (#[trigger] self.sessions@[j]).name@,
                    ) && self@[self.sessions@[j].name@] == self.sessions@[j]@,
            decreases self.sessions@.len() - i,
        {
            if same_text(self.sessions[i].name.as_str(), name) {
                return i;
            }
            i = i + 1;
        }
        i
    }

    /// Whether a session of this process has the name.
    pub fn is_direct(&self, name: &str) -> (r: bool)
        requires
            self.well_formed(),
        ensures
            r == self@.dom().contains(name@),
    {
        self.position(name) < self.sessions.len()
    }

    /// Begins a session; one of the same name is replaced.
    pub fn create_session(&mut self, name: &str, cwd: &[u8])
        requires
            old(self).well_formed(),
        ensures
            final(self).well_formed(),
            final(self)@ == old(self)@.insert(
                name@,
                DirectModel { cwd: cwd@, metadata: None, reserved: false },
            ),
    {
        let ghost before = self.sessions@;
        let ghost table = self@.insert(
            name@,
            DirectModel { cwd: cwd@, metadata: None, reserved: false },
        );
        let at: usize = self.position(name);
        proof {
            lemma_table(before);
        }
        let session: DirectSession = DirectSession {
            name: name.to_owned(),
            cwd: copy_bytes(cwd),
            metadata: None,
            reserved: false,
        };
        self.place(at, session, Ghost(table));
    }

    /// Puts a session where one of its name stands, or at the end.
    fn place(
        &mut self,
        at: usize,
        session: DirectSession,
        Ghost(table): Ghost<Map<Seq<char>, DirectModel>>,
    )
        requires
            old(self).well_formed(),
            at <= old(self).sessions@.len(),
            at < old(self).sessions@.len() ==> old(self).sessions@[at as int].name@
                == session.name@,
            at == old(self).sessions@.len() ==> forall|j: int|
                0 <= j < at ==> (#[trigger] old(self).sessions@[j]).name@ != session.name@,
            table == old(self)@.insert(session.name@, session@),
        ensures
            final(self).well_formed(),
            final(self)@ == table,
    {
        let ghost before = self.sessions@;
        proof {
            lemma_table(before);
        }
        let ghost name = session.name@;
        if at < self.sessions.len() {
            self.sessions[at] = session;
        } else {
            self.sessions.push(session);
        }
        proof {
            let after = self.sessions@;
            assert(distinct(after)) by {
                assert forall|i: int, j: int| 0 <= i < j < after.len() implies (
                #[trigger] after[i]).name@ != (#[trigger] after[j]).name@ by {
                    if i != at {
                        assert(after[i] == before[i]);
                    }
                    if j != at {
                        assert(after[j] == before[j]);
                    }
                    if at < before.len() {
                        assert(before[i].name@ != before[j].name@);
                    }
                }
            }
            assert forall|i: int| 0 <= i < after.len() implies table.dom().contains(
                (#[trigger] after[i]).name@,
            ) && table[after[i].name@] == after[i]@ by {
                if i != at {
                    assert(after[i] == before[i]);
                    if at < before.len() {
                        if i < at {
                            assert(before[i].name@ != before[at as int].name@);
                        } else {
                            assert(before[at as int].name@ != before[i].name@);
                        }
                    }
                }
            }
            assert forall|key: Seq<char>| table.dom().contains(key) implies exists|i: int|
                0 <= i < after.len() && (#[trigger] after[i]).name@ == key by {
                if key == name {
                    assert(after[at as int].name@ == key);
                } else {
                    let i = choose|i: int|
                        0 <= i < before.len() && (#[trigger] before[i]).name@ == key;
                    assert(after[i].name@ == key);
                }
            }
            lemma_same_table(after, table);
        }
    }

    /// Tells a session what it is.
    pub fn configure_session(&mut self, name: &str, metadata: &SessionMetadata) -> (result: Result<
        (),
        ToolError,
    >)
        requires
            old(self).well_formed(),
        ensures
            final(self).well_formed(),
            match result {
                Ok(()) => old(self)@.dom().contains(name@) && final(self)@ == old(self)@.insert(
                    name@,
                    DirectModel {
                        metadata: Some(metadata_view(*metadata)),
                        ..old(self)@[name@]
                    },
                ),
                Err(e) => !old(self)@.dom().contains(name@) && final(self)@ == old(self)@
                    && error::is_message(e, no_longer_exists(name@)),
            },
    {
        let at: usize = self.position(name);
        if at == self.sessions.len() {
            return Err(vanished(name));
        }
        let copy: SessionMetadata = SessionMetadata {
            project_name: metadata.project_name.clone(),
            worktree_name: metadata.worktree_name.clone(),
            agent_name: metadata.agent_name.clone(),
        };
        let session: DirectSession = DirectSession {
            name: name.to_owned(),
            cwd: copy_bytes(self.sessions[at].cwd.as_slice()),
            metadata: Some(copy),
            reserved: self.sessions[at].reserved,
        };
        let ghost table = self@.insert(name@, session@);
        self.place(at, session, Ghost(table));
        Ok(())
    }

    /// Fails unless a session says exactly this of itself.
    pub fn validate_session_metadata(&self, name: &str, metadata: &SessionMetadata) -> (result:
        Result<(), ToolError>)
        requires
            self.well_formed(),
        ensures
            match result {
                Ok(()) => self@.dom().contains(name@) && self@[name@].metadata == Some(
                    metadata_view(*metadata),
                ),
                Err(e) => if self@.dom().contains(name@) {
                    self@[name@].metadata != Some(metadata_view(*metadata)) && error::is_message(
                        e,
                        "direct session "@ + name@ + " metadata does not match"@,
                    )
                } else {
                    error::is_message(e, no_longer_exists(name@))
                },
            },
    {
        let at: usize = self.position(name);
        if at == self.sessions.len() {
            return Err(vanished(name));
        }
        if let Some(known) = &self.sessions[at].metadata {
            if same_text(known.project_name.as_str(), metadata.project_name.as_str()) && same_text(
                known.worktree_name.as_str(),
                metadata.worktree_name.as_str(),
            ) && same_text(known.agent_name.as_str(), metadata.agent_name.as_str()) {
                return Ok(());
            }
        }
        Err(message3("direct session ", name, " metadata does not match"))
    }

    /// Claims the start of the agent; true for the first who does.
    pub fn reserve_agent_start(&mut self, name: &str) -> (result: Result<bool, ToolError>)
        requires
            old(self).well_formed(),
        ensures
            final(self).well_formed(),
            match result {
                Ok(first) => old(self)@.dom().contains(name@) && first
                    == !old(self)@[name@].reserved && final(self)@ == old(self)@.insert(
                    name@,
                    DirectModel { reserved: true, ..old(self)@[name@] },
                ),
                Err(e) => !old(self)@.dom().contains(name@) && final(self)@ == old(self)@
                    && error::is_message(e, no_longer_exists(name@)),
            },
    {
        let at: usize = self.position(name);
        if at == self.sessions.len() {
            return Err(vanished(name));
        }
        if self.sessions[at].reserved {
            assert(self@ =~= old(self)@.insert(
                name@,
                DirectModel { reserved: true, ..old(self)@[name@] },
            ));
            return Ok(false);
        }
        let metadata: Option<SessionMetadata> = match &self.sessions[at].metadata {
            Some(metadata) => Some(
                SessionMetadata {
                    project_name: metadata.project_name.clone(),
                    worktree_name: metadata.worktree_name.clone(),
                    agent_name: metadata.agent_name.clone(),
                },
            ),
            None => None,
        };
        let session: DirectSession = DirectSession {
            name: name.to_owned(),
            cwd: copy_bytes(self.sessions[at].cwd.as_slice()),
            metadata,
            reserved: true,
        };
        let ghost table = self@.insert(name@, session@);
        self.place(at, session, Ghost(table));
        Ok(true)
    }

    /// Ends a session; its directory, if it was there.
    pub fn remove(&mut self, name: &str) -> (cwd: Option<Vec<u8>>)
        requires
            old(self).well_formed(),
        ensures
            final(self).well_formed(),
            final(self)@ == old(self)@.remove(name@),
            match cwd {
                Some(cwd) => old(self)@.dom().contains(name@) && cwd@ == old(self)@[name@].cwd,
                None => !old(self)@.dom().contains(name@),
            },
    {
        let ghost before = self.sessions@;
        let at: usize = self.position(name);
        proof {
            lemma_table(before);
        }
        if at == self.sessions.len() {
            assert(self@ =~= old(self)@.remove(name@));
            return None;
        }
        let session: DirectSession = self.sessions.remove(at);
        proof {
            let after = self.sessions@;
            let table = old(self)@.remove(name@);
            assert forall|i: int| 0 <= i < after.len() implies #[trigger] after[i] == before[if i
                < at {
                i
            } else {
                i + 1
            }] by {}
            assert(distinct(after)) by {
                assert forall|i: int, j: int| 0 <= i < j < after.len() implies (
                #[trigger] after[i]).name@ != (#[trigger] after[j]).name@ by {
                    let x: int = if i < at {
                        i
                    } else {
                        i + 1
                    };
                    let y: int = if j < at {
                        j
                    } else {
                        j + 1
                    };
                    assert(before[x].name@ != before[y].name@);
                }
            }
            assert forall|i: int| 0 <= i < after.len() implies table.dom().contains(
                (#[trigger] after[i]).name@,
            ) && table[after[i].name@] == after[i]@ by {
                let x: int = if i < at {
                    i
                } else {
                    i + 1
                };
                if x < at {
                    assert(before[x].name@ != before[at as int].name@);
                } else {
                    assert(before[at as int].name@ != before[x].name@);
                }
            }
            assert forall|key: Seq<char>| table.dom().contains(key) implies exists|i: int|
                0 <= i < after.len() && (#[trigger] after[i]).name@ == key by {
                let x = choose|x: int|
                    0 <= x < before.len() && (#[trigger] before[x]).name@ == key;
                assert(x != at);
                if x < at {
                    assert(after[x].name@ == key);
                } else {
                    assert(after[x - 1] == before[x]);
                    assert(after[x - 1].name@ == key);
                }
            }
            lemma_same_table(after, table);
        }
        Some(session.cwd)
    }

    /// Hands a session over to its agent: the directory to run it in.
    pub fn attach_with_agent(&mut self, name: &str, pane: &str) -> (result: Result<
        Vec<u8>,
        ToolError,
    >)
        requires
            old(self).well_formed(),
        ensures
            final(self).well_formed(),
            match result {
                Ok(cwd) => pane@ == "%0"@ && old(self)@.dom().contains(name@) && cwd@ == old(
                    self,
                )@[name@].cwd && final(self)@ == old(self)@.remove(name@),
                Err(e) => if pane@ != "%0"@ {
                    final(self)@ == old(self)@ && error::is_message(
                        e,
                        "direct session "@ + name@ + " has an invalid pane target"@,
                    )
                } else {
                    !old(self)@.dom().contains(name@) && final(self)@ == old(self)@
                        && error::is_message(e, no_longer_exists(name@))
                },
            },
    {
        if !same_text(pane, "%0") {
            return Err(message3("direct session ", name, " has an invalid pane target"));
        }
        match self.remove(name) {
            Some(cwd) => Ok(cwd),
            None => {
                assert(self@ =~= old(self)@);
                Err(vanished(name))
            },
        }
    }
}

/// The only pane of a session of this process.
pub fn is_direct_pane(pane: &str) -> (r: bool)
    ensures
        r == (pane@ == "%0"@),
{
    same_text(pane, "%0")
}

/// The error for attaching to a session of this process a second time.
pub fn not_reattachable() -> (e: ToolError)
    ensures
        error::is_message(
            e,
            "direct sessions cannot be reattached; rerun the worktree instead"@,
        ),
{
    message("direct sessions cannot be reattached; rerun the worktree instead")
}

/// Does without tmux where it is not installed.
pub fn optional_tmux<T>(result: Result<T, ToolError>, fallback: T) -> (out: Result<T, ToolError>)
    ensures
        out == (if result matches Err(ToolError::Io(failure)) && failure.not_found {
            Ok::<T, ToolError>(fallback)
        } else {
            result
        }),
{
    match result {
        Err(ToolError::Io(failure)) => if failure.not_found {
            Ok(fallback)
        } else {
            Err(ToolError::Io(failure))
        },
        result => result,
    }
}

/// Where records of sessions may be: the state directory, and the legacy one.
pub open spec fn state_directories(
    state_home: Option<Seq<u8>>,
    home: Option<Seq<u8>>,
) -> Seq<Seq<u8>> {
    let absolute = match state_home {
        Some(value) => if path::rooted(value) {
            Some(layout::below(value, "david/sessions"@))
        } else {
            None
        },
        None => None,
    };
    match (absolute, home) {
        (Some(one), None) => seq![one],
        (None, None) => Seq::empty(),
        (Some(one), Some(home)) => in_order(one, layout::below(home, ".david/sessions"@)),
        (None, Some(home)) => in_order(
            layout::below(home, ".local/state/david/sessions"@),
            layout::below(home, ".david/sessions"@),
        ),
    }
}

/// Two paths in order, or one if they are the same.
pub open spec fn in_order(a: Seq<u8>, b: Seq<u8>) -> Seq<Seq<u8>> {
    if path::same_components(a, b) {
        seq![a]
    } else if path::comes_before(b, a) {
        seq![b, a]
    } else {
        seq![a, b]
    }
}

fn sorted_pair(a: Vec<u8>, b: Vec<u8>) -> (out: Vec<Vec<u8>>)
    ensures
        crate::bytes::byte_views(out@) == in_order(a@, b@),
{
    let ghost expected = in_order(a@, b@);
    let mut out: Vec<Vec<u8>> = Vec::new();
    if same_path(a.as_slice(), b.as_slice()) {
        out.push(a);
    } else if path_precedes(b.as_slice(), a.as_slice()) {
        out.push(b);
        out.push(a);
    } else {
        out.push(a);
        out.push(b);
    }
    assert(crate::bytes::byte_views(out@) =~= expected);
    out
}

pub fn session_state_directories(state_home: &Option<Vec<u8>>, home: &Option<Vec<u8>>) -> (out: Vec<
    Vec<u8>,
>)
    ensures
        crate::bytes::byte_views(out@) == state_directories(
            layout::optional_bytes(*state_home),
            layout::optional_bytes(*home),
        ),
{
    let absolute: Option<Vec<u8>> = match state_home {
        Some(value) => if is_absolute(value.as_slice()) {
            Some(join_text(value.as_slice(), "david/sessions"))
        } else {
            None
        },
        None => None,
    };
    match (absolute, home) {
        (Some(one), None) => {
            let out: Vec<Vec<u8>> = vec![one];
            assert(crate::bytes::byte_views(out@) =~= seq![one@]);
            out
        },
        (None, None) => {
            let out: Vec<Vec<u8>> = Vec::new();
            assert(crate::bytes::byte_views(out@) =~= Seq::<Seq<u8>>::empty());
            out
        },
        (Some(one), Some(home)) => sorted_pair(one, join_text(home.as_slice(), ".david/sessions")),
        (None, Some(home)) => sorted_pair(
            join_text(home.as_slice(), ".local/state/david/sessions"),
            join_text(home.as_slice(), ".david/sessions"),
        ),
    }
}

/// Whether a file could be the record of a session.
pub fn is_state_file(path: &[u8]) -> (r: bool)
    ensures
        r == path::extension_is(path@, vstd::utf8::encode_utf8("state"@)),
{
    has_extension(path, "state".as_bytes())
}

/// Whether a record is that of a session: one of its lines says so.
pub fn records_session(content: &str, session: &str) -> (r: bool)
    ensures
        r == text::lines(content@).contains("session="@ + session@),
{
    let mut marker: String = "session=".to_owned();
    marker.append(session);
    let lines: Vec<String> = lines_of(content);
    let ghost all = text::lines(content@);
    let mut i: usize = 0;
    while i < lines.len()
        invariant
            marker@ == "session="@ + session@,
            all == text::lines(content@),
            text::views(lines@) == all,
            i <= lines@.len(),
            forall|j: int| 0 <= j < i ==> #[trigger] all[j] != marker@,
        decreases lines@.len() - i,
    {
        assert(all[i as int] == lines@[i as int]@);
        if same_text(lines[i].as_str(), marker.as_str()) {
            return true;
        }
        i = i + 1;
    }
    assert(lines@.len() == text::views(lines@).len());
    false
}

/// The sessions of this process are those that were begun, each by its name.
pub proof fn sessions_are_kept_by_their_name(
    sessions: Seq<DirectSession>,
    session: DirectSession,
)
    ensures
        table_of(sessions.push(session)) == table_of(sessions).insert(
            session.name@,
            DirectModel {
                cwd: session.cwd@,
                metadata: optional_metadata(session.metadata),
                reserved: session.reserved,
            },
        ),
        table_of(Seq::empty()) == Map::<Seq<char>, DirectModel>::empty(),
{
    assert(sessions.push(session).drop_last() =~= sessions);
}

/// Records are looked for in the state directory, if its variable is an absolute path, or
/// else in the usual one, and in the older directory; without a home directory only in
/// the first. Of two spellings of one directory only one is looked at.
pub proof fn records_are_looked_for_everywhere(state_home: Seq<u8>, home: Seq<u8>)
    requires
        path::rooted(state_home),
    ensures
        ({
            let set = layout::below(state_home, "david/sessions"@);
            let usual = layout::below(home, ".local/state/david/sessions"@);
            let older = layout::below(home, ".david/sessions"@);
            &&& is_both(state_directories(Some(state_home), Some(home)), set, older)
            &&& is_both(state_directories(None, Some(home)), usual, older)
            &&& state_directories(Some(state_home), None) == seq![set]
            &&& state_directories(None, None) == Seq::<Seq<u8>>::empty()
        }),
{
}

/// Two directories, in the order of their paths, or one if they are the same.
pub open spec fn is_both(list: Seq<Seq<u8>>, a: Seq<u8>, b: Seq<u8>) -> bool {
    ||| path::same_components(a, b) && list == seq![a]
    ||| !path::same_components(a, b) && path::comes_before(b, a) && list == seq![b, a]
    ||| !path::same_components(a, b) && !path::comes_before(b, a) && list == seq![a, b]
}

/// A relative state directory counts as not set.
pub proof fn relative_state_directories_are_ignored(
    state_home: Seq<u8>,
    home: Option<Seq<u8>>,
)
    requires
        !path::rooted(state_home),
    ensures
        state_directories(Some(state_home), home) == state_directories(None, home),
{
}

/// Two directories are looked at in the same order however they are given.
pub proof fn directories_have_one_order(a: Seq<u8>, b: Seq<u8>)
    requires
        !path::same_components(a, b),
    ensures
        in_order(a, b) == in_order(b, a),
        in_order(a, b).len() == 2,
        in_order(a, b).contains(a) && in_order(a, b).contains(b),
        path::comes_before(in_order(a, b)[0], in_order(a, b)[1]),
{
    path::paths_are_in_an_order(a, b);
    let list = in_order(a, b);
    assert(list[0] == a || list[1] == a);
    assert(list[0] == b || list[1] == b);
}

/// A session that is gone is named.
pub proof fn sessions_that_are_gone_are_named(name: Seq<char>)
    ensures
        no_longer_exists(name) == "direct session "@ + name + " no longer exists"@,
{
}

} // verus!
