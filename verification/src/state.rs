//! The record of a managed session: what it says, how it is written to a file
//! and how it is read back.

use vstd::prelude::*;
#[allow(unused_imports)]
use vstd::string::*;

use crate::bytes;
use crate::bytes::{lossy_text, utf8_of};
use crate::config;
use crate::config::label;
use crate::error;
use crate::error::{message3, ToolError};
use crate::hex;
use crate::hex::{decode_path_hex, encode_path_hex};
use crate::path;
use crate::path::same_path;
use crate::text;
use crate::text::{lines_of, number, same_text, split_at_char, stripped};

verus! {

/// What the status line of a session shows.
#[derive(Debug)]
pub struct SessionMetadata {
    pub project_name: String,
    pub worktree_name: String,
    pub agent_name: String,
}

/// The session that was started for a worktree.
#[derive(Debug)]
pub struct SessionState {
    pub repo_id: String,
    pub worktree_name: String,
    pub worktree_path: Vec<u8>,
    pub branch: String,
    pub session: String,
    pub agent: String,
    pub pane: Option<String>,
}

#[verifier::ext_equal]
pub struct StateModel {
    pub repo_id: Seq<char>,
    pub worktree_name: Seq<char>,
    pub worktree_path: Seq<u8>,
    pub branch: Seq<char>,
    pub session: Seq<char>,
    pub agent: Seq<char>,
    pub pane: Option<Seq<char>>,
}

impl View for SessionState {
    type V = StateModel;

    open spec fn view(&self) -> StateModel {
        StateModel {
            repo_id: self.repo_id@,
            worktree_name: self.worktree_name@,
            worktree_path: self.worktree_path@,
            branch: self.branch@,
            session: self.session@,
            agent: self.agent@,
            pane: config::optional_text(self.pane),
        }
    }
}

/// A pane identifier: a percent sign and a number.
pub open spec fn is_pane_id(value: Seq<char>) -> bool {
    text::starts_with(value, "%"@) && text::is_number(value.skip("%"@.len() as int))
}

pub fn valid_pane_id(value: &str) -> (r: bool)
    ensures
        r == is_pane_id(value@),
{
    match stripped(value, "%") {
        Some(id) => number(id.as_str()),
        None => false,
    }
}

/// A line that gives a field its value.
pub open spec fn field_line(key: Seq<char>, value: Seq<char>) -> Seq<char> {
    key + "="@ + value + "\n"@
}

/// The file for a session.
pub open spec fn encoded(state: StateModel) -> Seq<char> {
    field_line("repo_id"@, state.repo_id) + field_line("worktree_name"@, state.worktree_name)
        + field_line("worktree_path_hex"@, hex::hex(state.worktree_path)) + field_line(
        "branch"@,
        state.branch,
    ) + field_line("session"@, state.session) + field_line("agent"@, state.agent) + (match state.pane {
        Some(pane) => field_line("pane"@, pane),
        None => Seq::empty(),
    })
}

/// A field that a session file may hold.
pub open spec fn known_field(key: Seq<char>) -> bool {
    ||| key == "repo_id"@
    ||| key == "worktree_name"@
    ||| key == "worktree_path"@
    ||| key == "worktree_path_hex"@
    ||| key == "branch"@
    ||| key == "session"@
    ||| key == "agent"@
    ||| key == "pane"@
}

/// The value of a field.
pub open spec fn value_of(fields: Seq<(Seq<char>, Seq<char>)>, key: Seq<char>) -> Option<Seq<char>>
    decreases fields.len(),
{
    if fields.len() == 0 {
        None
    } else if fields.last().0 == key {
        Some(fields.last().1)
    } else {
        value_of(fields.drop_last(), key)
    }
}

/// The fields on the lines of a file, behind those read before, or what is
/// wrong with the first bad line.
pub open spec fn fields_of(
    lines: Seq<Seq<char>>,
    before: Seq<(Seq<char>, Seq<char>)>,
) -> Result<Seq<(Seq<char>, Seq<char>)>, Seq<char>>
    decreases lines.len(),
{
    if lines.len() == 0 {
        Ok(before)
    } else {
        match text::split_once(lines[0], '=') {
            None => Err("invalid session metadata"@),
            Some((key, value)) => if !known_field(key) {
                Err("session metadata contains unknown field "@ + key)
            } else if value_of(before, key) is Some {
                Err("session metadata contains duplicate field "@ + key)
            } else {
                fields_of(lines.skip(1), before.push((key, value)))
            },
        }
    }
}

pub open spec fn missing(key: Seq<char>) -> Seq<char> {
    "session metadata is missing "@ + key
}

/// The path of the worktree: in hexadecimal, or as text in older files.
pub open spec fn path_field(fields: Seq<(Seq<char>, Seq<char>)>) -> Result<Seq<u8>, Seq<char>> {
    match (value_of(fields, "worktree_path_hex"@), value_of(fields, "worktree_path"@)) {
        (Some(_), Some(_)) => Err("session metadata contains duplicate worktree path fields"@),
        (Some(digits), None) => match hex::unhex(digits) {
            Some(path) => Ok(path),
            None => Err("session metadata has an invalid worktree path"@),
        },
        (None, Some(path)) => Ok(vstd::utf8::encode_utf8(path)),
        (None, None) => Err(missing("worktree_path"@)),
    }
}

/// The session that the fields describe, or the first thing that is wrong.
pub open spec fn state_of(fields: Seq<(Seq<char>, Seq<char>)>) -> Result<StateModel, Seq<char>> {
    let agent = value_of(fields, "agent"@);
    let worktree_path = path_field(fields);
    let pane = value_of(fields, "pane"@);
    let repo_id = value_of(fields, "repo_id"@);
    let worktree_name = value_of(fields, "worktree_name"@);
    let branch = value_of(fields, "branch"@);
    let session = value_of(fields, "session"@);
    if agent is None {
        Err(missing("agent"@))
    } else if !config::is_label(agent->0) {
        Err("session metadata has an invalid agent"@)
    } else if worktree_path is Err {
        Err(worktree_path->Err_0)
    } else if pane is Some && !is_pane_id(pane->0) {
        Err("session metadata has an invalid pane"@)
    } else if repo_id is None {
        Err(missing("repo_id"@))
    } else if worktree_name is None {
        Err(missing("worktree_name"@))
    } else if branch is None {
        Err(missing("branch"@))
    } else if session is None {
        Err(missing("session"@))
    } else {
        Ok(
            StateModel {
                repo_id: repo_id->0,
                worktree_name: worktree_name->0,
                worktree_path: worktree_path->Ok_0,
                branch: branch->0,
                session: session->0,
                agent: agent->0,
                pane,
            },
        )
    }
}

/// The session that a file describes, or what is wrong with the file.
pub open spec fn decoded(content: Seq<char>) -> Result<StateModel, Seq<char>> {
    match fields_of(text::lines(content), Seq::empty()) {
        Ok(fields) => state_of(fields),
        Err(problem) => Err(problem),
    }
}

/// The record belongs to this worktree and this session; the two paths are what
/// the recorded and the requested path resolve to.
pub open spec fn state_matches(
    state: StateModel,
    repo_id: Seq<char>,
    name: Seq<char>,
    session: Seq<char>,
    recorded: Seq<u8>,
    requested: Seq<u8>,
) -> bool {
    &&& state.repo_id == repo_id
    &&& state.worktree_name == name
    &&& state.branch == name
    &&& state.session == session
    &&& path::same_components(recorded, requested)
}

fn push_field(out: &mut String, key: &str, value: &str)
    ensures
        final(out)@ == old(out)@ + field_line(key@, value@),
{
    out.append(key);
    out.append("=");
    out.append(value);
    out.append("\n");
    assert(out@ =~= old(out)@ + field_line(key@, value@));
}

impl SessionState {
    pub fn matches(
        &self,
        repo_id: &str,
        name: &str,
        session: &str,
        recorded: &[u8],
        requested: &[u8],
    ) -> (r: bool)
        ensures
            r == state_matches(self@, repo_id@, name@, session@, recorded@, requested@),
    {
        same_text(self.repo_id.as_str(), repo_id) && same_text(self.worktree_name.as_str(), name)
            && same_text(self.branch.as_str(), name) && same_text(self.session.as_str(), session)
            && same_path(recorded, requested)
    }

    pub fn encode(&self) -> (out: String)
        ensures
            out@ == encoded(self@),
    {
        let mut out: String = String::new();
        push_field(&mut out, "repo_id", self.repo_id.as_str());
        push_field(&mut out, "worktree_name", self.worktree_name.as_str());
        push_field(
            &mut out,
            "worktree_path_hex",
            encode_path_hex(self.worktree_path.as_slice()).as_str(),
        );
        push_field(&mut out, "branch", self.branch.as_str());
        push_field(&mut out, "session", self.session.as_str());
        push_field(&mut out, "agent", self.agent.as_str());
        if let Some(pane) = &self.pane {
            push_field(&mut out, "pane", pane.as_str());
        }
        assert(out@ =~= encoded(self@));
        out
    }
}

pub open spec fn pair_views(list: Seq<(String, String)>) -> Seq<(Seq<char>, Seq<char>)> {
    list.map_values(|pair: (String, String)| (pair.0@, pair.1@))
}

fn is_known_field(key: &str) -> (r: bool)
    ensures
        r == known_field(key@),
{
    same_text(key, "repo_id") || same_text(key, "worktree_name") || same_text(key, "worktree_path")
        || same_text(key, "worktree_path_hex") || same_text(key, "branch") || same_text(
        key,
        "session",
    ) || same_text(key, "agent") || same_text(key, "pane")
}

fn field_value(fields: &Vec<(String, String)>, key: &str) -> (value: Option<String>)
    ensures
        config::optional_text(value) == value_of(pair_views(fields@), key@),
{
    let ghost all = pair_views(fields@);
    let mut left: usize = fields.len();
    assert(all.take(left as int) =~= all);
    while left > 0
        invariant
            all == pair_views(fields@),
            left <= fields@.len(),
            value_of(all.take(left as int), key@) == value_of(all, key@),
        decreases left,
    {
        assert(all.take(left as int).last() == (fields@[left - 1].0@, fields@[left - 1].1@));
        if same_text(fields[left - 1].0.as_str(), key) {
            return Some(fields[left - 1].1.clone());
        }
        assert(all.take(left as int).drop_last() =~= all.take(left - 1));
        left = left - 1;
    }
    None
}

/// The error for a session file: what is wrong, and with which file.
pub open spec fn is_state_error(e: ToolError, problem: Seq<char>, path: Seq<u8>) -> bool {
    error::is_message(e, problem + ": "@ + bytes::utf8_lossy(path))
}

fn state_error(problem: &str, path: &[u8]) -> (e: ToolError)
    ensures
        is_state_error(e, problem@, path@),
{
    message3(problem, ": ", lossy_text(path).as_str())
}

fn field_error(problem: &str, key: &str, path: &[u8]) -> (e: ToolError)
    ensures
        is_state_error(e, problem@ + key@, path@),
{
    let mut text: String = problem.to_owned();
    text.append(key);
    state_error(text.as_str(), path)
}

fn read_fields(content: &str, path: &[u8]) -> (result: Result<Vec<(String, String)>, ToolError>)
    ensures
        match result {
            Ok(fields) => fields_of(text::lines(content@), Seq::empty()) == Ok::<
                Seq<(Seq<char>, Seq<char>)>,
                Seq<char>,
            >(pair_views(fields@)),
            Err(e) => fields_of(text::lines(content@), Seq::empty()) matches Err(problem)
                && is_state_error(e, problem, path@),
        },
{
    let lines: Vec<String> = lines_of(content);
    let ghost all = text::lines(content@);
    let mut fields: Vec<(String, String)> = Vec::new();
    let mut i: usize = 0;
    assert(all.skip(0) =~= all);
    assert(pair_views(fields@) =~= Seq::<(Seq<char>, Seq<char>)>::empty());
    while i < lines.len()
        invariant
            all == text::lines(content@),
            text::views(lines@) == all,
            i <= lines@.len(),
            fields_of(all.skip(i as int), pair_views(fields@)) == fields_of(all, Seq::empty()),
        decreases lines@.len() - i,
    {
        let ghost rest = all.skip(i as int);
        let ghost before = pair_views(fields@);
        assert(rest[0] == text::views(lines@)[i as int]);
        assert(rest[0] == lines@[i as int]@);
        let (key, value): (String, String) = match split_at_char(lines[i].as_str(), '=') {
            Some(pair) => pair,
            None => {
                return Err(state_error("invalid session metadata", path));
            },
        };
        if !is_known_field(key.as_str()) {
            return Err(
                field_error("session metadata contains unknown field ", key.as_str(), path),
            );
        }
        if field_value(&fields, key.as_str()).is_some() {
            return Err(
                field_error("session metadata contains duplicate field ", key.as_str(), path),
            );
        }
        let ghost pair = (key@, value@);
        fields.push((key, value));
        assert(pair_views(fields@) =~= before.push(pair));
        assert(rest.skip(1) =~= all.skip(i + 1));
        i = i + 1;
    }
    assert(lines@.len() == text::views(lines@).len());
    assert(all.skip(i as int) =~= Seq::<Seq<char>>::empty());
    Ok(fields)
}

fn take_field(fields: &Vec<(String, String)>, key: &str, path: &[u8]) -> (result: Result<
    String,
    ToolError,
>)
    ensures
        match result {
            Ok(value) => value_of(pair_views(fields@), key@) == Some(value@),
            Err(e) => value_of(pair_views(fields@), key@) is None && is_state_error(
                e,
                missing(key@),
                path@,
            ),
        },
{
    match field_value(fields, key) {
        Some(value) => Ok(value),
        None => Err(field_error("session metadata is missing ", key, path)),
    }
}

fn take_path(fields: &Vec<(String, String)>, path: &[u8]) -> (result: Result<Vec<u8>, ToolError>)
    ensures
        match result {
            Ok(value) => path_field(pair_views(fields@)) == Ok::<Seq<u8>, Seq<char>>(value@),
            Err(e) => path_field(pair_views(fields@)) matches Err(problem) && is_state_error(
                e,
                problem,
                path@,
            ),
        },
{
    match (field_value(fields, "worktree_path_hex"), field_value(fields, "worktree_path")) {
        (Some(_), Some(_)) => Err(
            state_error("session metadata contains duplicate worktree path fields", path),
        ),
        (Some(digits), None) => match decode_path_hex(digits.as_str()) {
            Some(value) => Ok(value),
            None => Err(state_error("session metadata has an invalid worktree path", path)),
        },
        (None, Some(value)) => Ok(utf8_of(value.as_str())),
        (None, None) => Err(field_error("session metadata is missing ", "worktree_path", path)),
    }
}

/// Reads the content of a session file; `path` is where it was found.
pub fn read_session_state(content: &str, path: &[u8]) -> (result: Result<SessionState, ToolError>)
    ensures
        match result {
            Ok(state) => decoded(content@) == Ok::<StateModel, Seq<char>>(state@),
            Err(e) => decoded(content@) matches Err(problem) && is_state_error(e, problem, path@),
        },
{
    let fields: Vec<(String, String)> = read_fields(content, path)?;
    let agent: String = take_field(&fields, "agent", path)?;
    if !label(agent.as_str()) {
        return Err(state_error("session metadata has an invalid agent", path));
    }
    let worktree_path: Vec<u8> = take_path(&fields, path)?;
    let pane: Option<String> = field_value(&fields, "pane");
    if let Some(id) = &pane {
        if !valid_pane_id(id.as_str()) {
            return Err(state_error("session metadata has an invalid pane", path));
        }
    }
    let repo_id: String = take_field(&fields, "repo_id", path)?;
    let worktree_name: String = take_field(&fields, "worktree_name", path)?;
    let branch: String = take_field(&fields, "branch", path)?;
    let session: String = take_field(&fields, "session", path)?;
    Ok(SessionState { repo_id, worktree_name, worktree_path, branch, session, agent, pane })
}

/// A value that one line of a file can hold.
pub open spec fn storable_text(value: Seq<char>) -> bool {
    !value.contains('\n') && (value.len() > 0 ==> value.last() != '\r')
}

/// A session that its file can hold.
pub open spec fn storable(state: StateModel) -> bool {
    &&& storable_text(state.repo_id)
    &&& storable_text(state.worktree_name)
    &&& storable_text(state.branch)
    &&& storable_text(state.session)
    &&& config::is_label(state.agent)
    &&& state.pane matches Some(pane) ==> is_pane_id(pane)
}

/// A complete first line comes out as it went in.
proof fn lemma_first_line(line: Seq<char>, rest: Seq<char>)
    requires
        storable_text(line),
    ensures
        text::lines(line + "\n"@ + rest) == seq![line] + text::lines(rest),
{
    reveal_strlit("\n");
    let whole = line + "\n"@ + rest;
    let n = line.len() as int;
    assert(whole[n] == '\n');
    assert forall|i: int| 0 <= i < n implies whole[i] != '\n' by {
        assert(whole[i] == line[i]);
        if line[i] == '\n' {
            assert(line.contains('\n'));
        }
    }
    text::lemma_find_is(whole, '\n', n);
    assert(whole.take(n) =~= line);
    assert(whole.skip(n + 1) =~= rest);
    assert(text::without_cr(line) == line);
}

/// A field line is one line, and it gives its key and value back.
proof fn lemma_field_line(key: Seq<char>, value: Seq<char>, rest: Seq<char>)
    requires
        storable_text(value),
        !key.contains('\n'),
        !key.contains('='),
    ensures
        text::lines(field_line(key, value) + rest) == seq![key + "="@ + value] + text::lines(rest),
        text::split_once(key + "="@ + value, '=') == Some((key, value)),
{
    reveal_strlit("=");
    let line = key + "="@ + value;
    let n = key.len() as int;
    assert(storable_text(line)) by {
        if line.contains('\n') {
            let i = choose|i: int| 0 <= i < line.len() && line[i] == '\n';
            if i < n {
                assert(key[i] == '\n');
                assert(key.contains('\n'));
            } else if i > n {
                assert(value[i - n - 1] == '\n');
                assert(value.contains('\n'));
            }
        }
        if value.len() > 0 {
            assert(line.last() == value.last());
        } else {
            assert(line.last() == '=');
        }
    }
    lemma_first_line(line, rest);
    assert(field_line(key, value) + rest =~= line + "\n"@ + rest);
    assert forall|i: int| 0 <= i < n implies line[i] != '=' by {
        assert(line[i] == key[i]);
        if key[i] == '=' {
            assert(key.contains('='));
        }
    }
    assert(line[n] == '=');
    text::lemma_find_is(line, '=', n);
    assert(line.take(n) =~= key);
    assert(line.skip(n + 1) =~= value);
}

/// The keys are plain words, all different from each other.
proof fn lemma_keys()
    ensures
        forall|key: Seq<char>| #[trigger] known_field(key) ==> !key.contains('\n') && !key.contains('='),
        "repo_id"@ != "worktree_name"@,
        "repo_id"@ != "worktree_path"@,
        "repo_id"@ != "worktree_path_hex"@,
        "repo_id"@ != "branch"@,
        "repo_id"@ != "session"@,
        "repo_id"@ != "agent"@,
        "repo_id"@ != "pane"@,
        "worktree_name"@ != "worktree_path"@,
        "worktree_name"@ != "worktree_path_hex"@,
        "worktree_name"@ != "branch"@,
        "worktree_name"@ != "session"@,
        "worktree_name"@ != "agent"@,
        "worktree_name"@ != "pane"@,
        "worktree_path"@ != "worktree_path_hex"@,
        "worktree_path"@ != "branch"@,
        "worktree_path"@ != "session"@,
        "worktree_path"@ != "agent"@,
        "worktree_path"@ != "pane"@,
        "worktree_path_hex"@ != "branch"@,
        "worktree_path_hex"@ != "session"@,
        "worktree_path_hex"@ != "agent"@,
        "worktree_path_hex"@ != "pane"@,
        "branch"@ != "session"@,
        "branch"@ != "agent"@,
        "branch"@ != "pane"@,
        "session"@ != "agent"@,
        "session"@ != "pane"@,
        "agent"@ != "pane"@,
{
    reveal_strlit("repo_id");
    reveal_strlit("worktree_name");
    reveal_strlit("worktree_path");
    reveal_strlit("worktree_path_hex");
    reveal_strlit("branch");
    reveal_strlit("session");
    reveal_strlit("agent");
    reveal_strlit("pane");
    assert("repo_id"@.len() == 7);
    assert("worktree_name"@.len() == 13);
    assert("worktree_path"@.len() == 13);
    assert("worktree_path_hex"@.len() == 17);
    assert("branch"@.len() == 6);
    assert("session"@.len() == 7);
    assert("agent"@.len() == 5);
    assert("pane"@.len() == 4);
    assert("repo_id"@[0] != "session"@[0]);
    assert("worktree_name"@[9] != "worktree_path"@[9]);
}

/// The fields of a stored session.
spec fn stored_fields(state: StateModel) -> Seq<(Seq<char>, Seq<char>)> {
    let fields = seq![
        ("repo_id"@, state.repo_id),
        ("worktree_name"@, state.worktree_name),
        ("worktree_path_hex"@, hex::hex(state.worktree_path)),
        ("branch"@, state.branch),
        ("session"@, state.session),
        ("agent"@, state.agent),
    ];
    match state.pane {
        Some(pane) => fields.push(("pane"@, pane)),
        None => fields,
    }
}

/// What the lines of the fields hold, one behind the other.
spec fn joined_fields(fields: Seq<(Seq<char>, Seq<char>)>) -> Seq<char>
    decreases fields.len(),
{
    if fields.len() == 0 {
        Seq::empty()
    } else {
        field_line(fields[0].0, fields[0].1) + joined_fields(fields.skip(1))
    }
}

/// Well-formed lines with different keys are read back one by one.
proof fn lemma_joined_fields(
    fields: Seq<(Seq<char>, Seq<char>)>,
    before: Seq<(Seq<char>, Seq<char>)>,
)
    requires
        forall|i: int|
            0 <= i < fields.len() ==> known_field(#[trigger] fields[i].0) && storable_text(
                fields[i].1,
            ) && value_of(before, fields[i].0) is None,
        forall|i: int, j: int|
            0 <= i < j < fields.len() ==> #[trigger] fields[i].0 != #[trigger] fields[j].0,
    ensures
        fields_of(text::lines(joined_fields(fields)), before) == Ok::<
            Seq<(Seq<char>, Seq<char>)>,
            Seq<char>,
        >(before + fields),
    decreases fields.len(),
{
    if fields.len() == 0 {
        assert(before + fields =~= before);
    } else {
        let (key, value) = fields[0];
        let rest = fields.skip(1);
        assert(fields[0].0 == key);
        lemma_next_field(key, value, joined_fields(rest), before);
        lemma_push_value(before, key, value);
        assert forall|i: int| 0 <= i < rest.len() implies known_field(#[trigger] rest[i].0)
            && storable_text(rest[i].1) && value_of(before.push((key, value)), rest[i].0) is None by {
            assert(rest[i] == fields[i + 1]);
            assert(fields[0].0 != fields[i + 1].0);
        }
        assert forall|i: int, j: int| 0 <= i < j < rest.len() implies #[trigger] rest[i].0
            != #[trigger] rest[j].0 by {
            assert(rest[i] == fields[i + 1]);
            assert(rest[j] == fields[j + 1]);
        }
        lemma_joined_fields(rest, before.push((key, value)));
        assert(before.push((key, value)) + rest =~= before + fields);
    }
}

proof fn lemma_joined_push(fields: Seq<(Seq<char>, Seq<char>)>, key: Seq<char>, value: Seq<char>)
    ensures
        joined_fields(fields.push((key, value))) == joined_fields(fields) + field_line(key, value),
    decreases fields.len(),
{
    let all = fields.push((key, value));
    if fields.len() == 0 {
        assert(all.skip(1) =~= Seq::<(Seq<char>, Seq<char>)>::empty());
        assert(joined_fields(all.skip(1)) =~= Seq::<char>::empty());
        assert(all[0] == (key, value));
        assert(joined_fields(all) =~= joined_fields(fields) + field_line(key, value));
    } else {
        lemma_joined_push(fields.skip(1), key, value);
        assert(all.skip(1) =~= fields.skip(1).push((key, value)));
        assert(joined_fields(all) =~= joined_fields(fields) + field_line(key, value));
    }
}

proof fn lemma_encoded(state: StateModel)
    ensures
        encoded(state) == joined_fields(stored_fields(state)),
{
    let f0 = Seq::<(Seq<char>, Seq<char>)>::empty();
    let f1 = f0.push(("repo_id"@, state.repo_id));
    let f2 = f1.push(("worktree_name"@, state.worktree_name));
    let f3 = f2.push(("worktree_path_hex"@, hex::hex(state.worktree_path)));
    let f4 = f3.push(("branch"@, state.branch));
    let f5 = f4.push(("session"@, state.session));
    let f6 = f5.push(("agent"@, state.agent));
    lemma_joined_push(f0, "repo_id"@, state.repo_id);
    lemma_joined_push(f1, "worktree_name"@, state.worktree_name);
    lemma_joined_push(f2, "worktree_path_hex"@, hex::hex(state.worktree_path));
    lemma_joined_push(f3, "branch"@, state.branch);
    lemma_joined_push(f4, "session"@, state.session);
    lemma_joined_push(f5, "agent"@, state.agent);
    assert(joined_fields(f1) =~= field_line("repo_id"@, state.repo_id));
    match state.pane {
        Some(pane) => {
            lemma_joined_push(f6, "pane"@, pane);
            assert(stored_fields(state) =~= f6.push(("pane"@, pane)));
        },
        None => {
            assert(stored_fields(state) =~= f6);
            assert(encoded(state) =~= joined_fields(f6));
        },
    }
}

/// The values that a stored session's fields have.
proof fn lemma_stored_values(state: StateModel)
    ensures
        value_of(stored_fields(state), "repo_id"@) == Some(state.repo_id),
        value_of(stored_fields(state), "worktree_name"@) == Some(state.worktree_name),
        value_of(stored_fields(state), "worktree_path_hex"@) == Some(hex::hex(state.worktree_path)),
        value_of(stored_fields(state), "worktree_path"@) is None,
        value_of(stored_fields(state), "branch"@) == Some(state.branch),
        value_of(stored_fields(state), "session"@) == Some(state.session),
        value_of(stored_fields(state), "agent"@) == Some(state.agent),
        value_of(stored_fields(state), "pane"@) == state.pane,
{
    lemma_keys();
    let f0 = Seq::<(Seq<char>, Seq<char>)>::empty();
    let f1 = f0.push(("repo_id"@, state.repo_id));
    let f2 = f1.push(("worktree_name"@, state.worktree_name));
    let f3 = f2.push(("worktree_path_hex"@, hex::hex(state.worktree_path)));
    let f4 = f3.push(("branch"@, state.branch));
    let f5 = f4.push(("session"@, state.session));
    let f6 = f5.push(("agent"@, state.agent));
    lemma_push_value(f0, "repo_id"@, state.repo_id);
    lemma_push_value(f1, "worktree_name"@, state.worktree_name);
    lemma_push_value(f2, "worktree_path_hex"@, hex::hex(state.worktree_path));
    lemma_push_value(f3, "branch"@, state.branch);
    lemma_push_value(f4, "session"@, state.session);
    lemma_push_value(f5, "agent"@, state.agent);
    match state.pane {
        Some(pane) => {
            lemma_push_value(f6, "pane"@, pane);
            assert(stored_fields(state) =~= f6.push(("pane"@, pane)));
        },
        None => {
            assert(stored_fields(state) =~= f6);
        },
    }
}

/// A session that can be stored is read back exactly as it was written.
pub proof fn stored_sessions_are_read_back(state: StateModel)
    requires
        storable(state),
    ensures
        decoded(encoded(state)) == Ok::<StateModel, Seq<char>>(state),
{
    let fields = stored_fields(state);
    let none = Seq::<(Seq<char>, Seq<char>)>::empty();
    lemma_keys();
    lemma_hex_storable(state.worktree_path);
    lemma_label_storable(state.agent);
    if let Some(pane) = state.pane {
        lemma_pane_storable(pane);
    }
    lemma_joined_fields(fields, none);
    lemma_encoded(state);
    assert(none + fields =~= fields);
    lemma_stored_values(state);
    hex::lemma_hex_round_trip(state.worktree_path);
}

proof fn lemma_push_value(fields: Seq<(Seq<char>, Seq<char>)>, key: Seq<char>, value: Seq<char>)
    ensures
        forall|k: Seq<char>| #[trigger]
            value_of(fields.push((key, value)), k) == (if k == key {
                Some(value)
            } else {
                value_of(fields, k)
            }),
{
    assert(fields.push((key, value)).drop_last() =~= fields);
}

/// Reading goes on behind a well-formed line with a new key.
proof fn lemma_next_field(
    key: Seq<char>,
    value: Seq<char>,
    rest: Seq<char>,
    before: Seq<(Seq<char>, Seq<char>)>,
)
    requires
        known_field(key),
        storable_text(value),
        value_of(before, key) is None,
    ensures
        fields_of(text::lines(field_line(key, value) + rest), before) == fields_of(
            text::lines(rest),
            before.push((key, value)),
        ),
{
    lemma_keys();
    lemma_field_line(key, value, rest);
    let lines = text::lines(field_line(key, value) + rest);
    assert(lines[0] == key + "="@ + value);
    assert(lines.skip(1) =~= text::lines(rest));
}

proof fn lemma_hex_storable(path: Seq<u8>)
    ensures
        storable_text(hex::hex(path)),
{
    hex::lemma_hex_digits(path);
    let digits = hex::hex(path);
    if digits.contains('\n') {
        let i = choose|i: int| 0 <= i < digits.len() && digits[i] == '\n';
        assert(hex::digit_value(digits[i]) is Some);
    }
    if digits.len() > 0 {
        assert(hex::digit_value(digits[digits.len() - 1]) is Some);
    }
}

proof fn lemma_label_storable(value: Seq<char>)
    requires
        config::is_label(value),
    ensures
        storable_text(value),
{
    if value.len() > 0 && value.last() == '\r' {
        assert(value.contains('\r'));
    }
}

proof fn lemma_pane_storable(pane: Seq<char>)
    requires
        is_pane_id(pane),
    ensures
        storable_text(pane),
{
    reveal_strlit("%");
    let id = pane.skip(1);
    assert(pane.take(1)[0] == '%');
    assert forall|i: int| 0 < i < pane.len() implies text::is_digit(#[trigger] pane[i]) by {
        assert(pane[i] == id[i - 1]);
    }
}

/// The identifier of a pane is a percent sign with a number behind it.
pub proof fn panes_are_numbered(value: Seq<char>, number: Seq<char>)
    ensures
        is_pane_id(value) <==> value.len() > 1 && value[0] == '%' && text::is_number(value.skip(1)),
        is_pane_id(seq!['%'] + number) <==> text::is_number(number),
{
    reveal_strlit("%");
    assert("%"@ =~= seq!['%']);
    assert((seq!['%'] + number).skip(1) =~= number);
    assert((seq!['%'] + number).take(1) =~= seq!['%']);
    if value.len() > 0 {
        assert(value.take(1) =~= seq![value[0]]);
        assert(seq![value[0]][0] == value[0]);
        assert("%"@[0] == '%');
    }
}

/// The file of a session gives every field on a line of its own, the path in hexadecimal,
/// and the pane only if there is one.
pub proof fn files_give_every_field(state: StateModel)
    ensures
        ({
            let all = "repo_id="@ + state.repo_id + "\n"@ + "worktree_name="@ + state.worktree_name
                + "\n"@ + "worktree_path_hex="@ + hex::hex(state.worktree_path) + "\n"@
                + "branch="@ + state.branch + "\n"@ + "session="@ + state.session + "\n"@
                + "agent="@ + state.agent + "\n"@;
            match state.pane {
                Some(pane) => encoded(state) == all + "pane="@ + pane + "\n"@,
                None => encoded(state) == all,
            }
        }),
{
    reveal_strlit("=");
    reveal_strlit("repo_id");
    reveal_strlit("repo_id=");
    reveal_strlit("worktree_name");
    reveal_strlit("worktree_name=");
    reveal_strlit("worktree_path_hex");
    reveal_strlit("worktree_path_hex=");
    reveal_strlit("branch");
    reveal_strlit("branch=");
    reveal_strlit("session");
    reveal_strlit("session=");
    reveal_strlit("agent");
    reveal_strlit("agent=");
    reveal_strlit("pane");
    reveal_strlit("pane=");
    assert("repo_id="@ =~= "repo_id"@ + "="@);
    assert("worktree_name="@ =~= "worktree_name"@ + "="@);
    assert("worktree_path_hex="@ =~= "worktree_path_hex"@ + "="@);
    assert("branch="@ =~= "branch"@ + "="@);
    assert("session="@ =~= "session"@ + "="@);
    assert("agent="@ =~= "agent"@ + "="@);
    assert("pane="@ =~= "pane"@ + "="@);
    let all = "repo_id="@ + state.repo_id + "\n"@ + "worktree_name="@ + state.worktree_name + "\n"@
        + "worktree_path_hex="@ + hex::hex(state.worktree_path) + "\n"@ + "branch="@ + state.branch
        + "\n"@ + "session="@ + state.session + "\n"@ + "agent="@ + state.agent + "\n"@;
    match state.pane {
        Some(pane) => {
            assert(encoded(state) =~= all + "pane="@ + pane + "\n"@);
        },
        None => {
            assert(encoded(state) =~= all);
        },
    }
}

/// A record belongs to a worktree exactly if it names its repository, its name, its branch
/// and its session, and leads to the same place.
pub proof fn records_belong_to_one_worktree(
    state: StateModel,
    repo_id: Seq<char>,
    name: Seq<char>,
    session: Seq<char>,
    recorded: Seq<u8>,
    requested: Seq<u8>,
)
    ensures
        state_matches(state, repo_id, name, session, recorded, requested) <==> state.repo_id
            == repo_id && state.worktree_name == name && state.branch == name && state.session
            == session && path::same_components(recorded, requested),
{
}

/// What was read from the lines of a file, and nothing else, is among its fields.
proof fn lemma_fields_stand_on_lines(
    lines: Seq<Seq<char>>,
    before: Seq<(Seq<char>, Seq<char>)>,
    key: Seq<char>,
)
    requires
        fields_of(lines, before) is Ok,
    ensures
        value_of(fields_of(lines, before)->Ok_0, key) matches Some(value) ==> value_of(before, key)
            == Some(value) || lines.contains(key + seq!['='] + value),
        forall|i: int|
            0 <= i < lines.len() ==> text::split_once(#[trigger] lines[i], '=') is Some
                && known_field((text::split_once(lines[i], '=')->0).0),
    decreases lines.len(),
{
    if lines.len() > 0 {
        let (first, value) = text::split_once(lines[0], '=')->0;
        let rest = lines.skip(1);
        let more = before.push((first, value));
        assert(more.drop_last() =~= before);
        lemma_fields_stand_on_lines(rest, more, key);
        text::lemma_find(lines[0], '=');
        assert(lines[0] =~= first + seq!['='] + value);
        if let Some(found) = value_of(fields_of(lines, before)->Ok_0, key) {
            if rest.contains(key + seq!['='] + found) {
                let i = rest.index_of(key + seq!['='] + found);
                assert(lines[i + 1] == key + seq!['='] + found);
            } else if value_of(before, key) != Some(found) {
                assert(lines[0] == key + seq!['='] + found);
            }
        }
        assert forall|i: int| 0 <= i < lines.len() implies text::split_once(
            #[trigger] lines[i],
            '=',
        ) is Some && known_field((text::split_once(lines[i], '=')->0).0) by {
            if i > 0 {
                assert(lines[i] == rest[i - 1]);
            }
        }
    }
}

/// Everything that is read from a file stands in it: each field on a line, behind its
/// name. A file is read only if all its lines give known fields.
pub proof fn sessions_are_read_from_lines(content: Seq<char>, state: StateModel)
    requires
        decoded(content) == Ok::<StateModel, Seq<char>>(state),
    ensures
        ({
            let lines = text::lines(content);
            let gives = |key: Seq<char>, value: Seq<char>|
                lines.contains(key + seq!['='] + value);
            &&& gives("repo_id"@, state.repo_id)
            &&& gives("worktree_name"@, state.worktree_name)
            &&& gives("branch"@, state.branch)
            &&& gives("session"@, state.session)
            &&& gives("agent"@, state.agent) && config::is_label(state.agent)
            &&& state.pane matches Some(pane) ==> gives("pane"@, pane) && is_pane_id(pane)
            &&& forall|i: int|
                0 <= i < lines.len() ==> text::split_once(#[trigger] lines[i], '=') is Some
        }),
{
    let lines = text::lines(content);
    let none = Seq::<(Seq<char>, Seq<char>)>::empty();
    lemma_fields_stand_on_lines(lines, none, "repo_id"@);
    lemma_fields_stand_on_lines(lines, none, "worktree_name"@);
    lemma_fields_stand_on_lines(lines, none, "branch"@);
    lemma_fields_stand_on_lines(lines, none, "session"@);
    lemma_fields_stand_on_lines(lines, none, "agent"@);
    lemma_fields_stand_on_lines(lines, none, "pane"@);
}

/// The path of a worktree is read in hexadecimal, or as it stands where an older file
/// gives it so; a file that gives it twice, not at all or wrongly is refused.
pub proof fn paths_are_read_in_both_forms(
    fields: Seq<(Seq<char>, Seq<char>)>,
    path: Seq<u8>,
    text: Seq<char>,
)
    ensures
        ({
            let coded = value_of(fields, "worktree_path_hex"@);
            let plain = value_of(fields, "worktree_path"@);
            &&& coded == Some(hex::hex(path)) && plain is None ==> path_field(fields) == Ok::<
                Seq<u8>,
                Seq<char>,
            >(path)
            &&& coded is None && plain == Some(text) ==> path_field(fields) == Ok::<
                Seq<u8>,
                Seq<char>,
            >(vstd::utf8::encode_utf8(text))
            &&& coded is Some && plain is Some ==> path_field(fields) == Err::<Seq<u8>, Seq<char>>(
                "session metadata contains duplicate worktree path fields"@,
            )
            &&& coded is None && plain is None ==> path_field(fields) == Err::<Seq<u8>, Seq<char>>(
                "session metadata is missing worktree_path"@,
            )
            &&& coded matches Some(digits) ==> plain is None && hex::unhex(digits) is None
                ==> path_field(fields) == Err::<Seq<u8>, Seq<char>>(
                "session metadata has an invalid worktree path"@,
            )
        }),
{
    hex::lemma_hex_round_trip(path);
    reveal_strlit("session metadata is missing ");
    reveal_strlit("worktree_path");
    reveal_strlit("session metadata is missing worktree_path");
    assert("session metadata is missing "@ + "worktree_path"@
        =~= "session metadata is missing worktree_path"@);
}

/// Fields make up a session if none that is needed is missing and agent and pane are what
/// they should be, and then each is taken as it was given.
pub proof fn complete_fields_make_a_session(
    fields: Seq<(Seq<char>, Seq<char>)>,
    state: StateModel,
)
    requires
        value_of(fields, "repo_id"@) == Some(state.repo_id),
        value_of(fields, "worktree_name"@) == Some(state.worktree_name),
        path_field(fields) == Ok::<Seq<u8>, Seq<char>>(state.worktree_path),
        value_of(fields, "branch"@) == Some(state.branch),
        value_of(fields, "session"@) == Some(state.session),
        value_of(fields, "agent"@) == Some(state.agent),
        value_of(fields, "pane"@) == state.pane,
        config::is_label(state.agent),
        state.pane matches Some(pane) ==> is_pane_id(pane),
    ensures
        state_of(fields) == Ok::<StateModel, Seq<char>>(state),
{
}

/// A line without a field, an unknown field and a field that is there already are refused,
/// each by saying so, and any other line adds its field.
pub proof fn bad_lines_are_refused(
    lines: Seq<Seq<char>>,
    before: Seq<(Seq<char>, Seq<char>)>,
    key: Seq<char>,
    value: Seq<char>,
)
    requires
        lines.len() > 0,
    ensures
        !lines[0].contains('=') ==> fields_of(lines, before) == Err::<
            Seq<(Seq<char>, Seq<char>)>,
            Seq<char>,
        >("invalid session metadata"@),
        !key.contains('=') && lines[0] == key + seq!['='] + value ==> fields_of(lines, before) == (
        if !known_field(key) {
            Err::<Seq<(Seq<char>, Seq<char>)>, Seq<char>>(
                "session metadata contains unknown field "@ + key,
            )
        } else if exists|i: int| 0 <= i < before.len() && (#[trigger] before[i]).0 == key {
            Err::<Seq<(Seq<char>, Seq<char>)>, Seq<char>>(
                "session metadata contains duplicate field "@ + key,
            )
        } else {
            fields_of(lines.skip(1), before.push((key, value)))
        }),
{
    text::lemma_find(lines[0], '=');
    if !key.contains('=') {
        text::splitting_undoes_joining(key, value, '=');
    }
    lemma_value_is_given(before, key);
}

proof fn lemma_value_is_given(fields: Seq<(Seq<char>, Seq<char>)>, key: Seq<char>)
    ensures
        value_of(fields, key) is Some <==> exists|i: int|
            0 <= i < fields.len() && (#[trigger] fields[i]).0 == key,
    decreases fields.len(),
{
    if fields.len() > 0 {
        let rest = fields.drop_last();
        lemma_value_is_given(rest, key);
        if fields.last().0 == key {
            assert(fields[fields.len() - 1].0 == key);
        } else {
            if value_of(rest, key) is Some {
                let i = choose|i: int| 0 <= i < rest.len() && (#[trigger] rest[i]).0 == key;
                assert(fields[i].0 == key);
            }
            if exists|i: int| 0 <= i < fields.len() && (#[trigger] fields[i]).0 == key {
                let i = choose|i: int| 0 <= i < fields.len() && (#[trigger] fields[i]).0 == key;
                assert(rest[i].0 == key);
            }
        }
    }
}

/// The fields that are known are these.
pub proof fn known_fields_are_these(key: Seq<char>)
    ensures
        known_field(key) <==> seq![
            "repo_id"@,
            "worktree_name"@,
            "worktree_path"@,
            "worktree_path_hex"@,
            "branch"@,
            "session"@,
            "agent"@,
            "pane"@,
        ].contains(key),
{
    let all = seq![
        "repo_id"@,
        "worktree_name"@,
        "worktree_path"@,
        "worktree_path_hex"@,
        "branch"@,
        "session"@,
        "agent"@,
        "pane"@,
    ];
    assert(all[0] == "repo_id"@ && all[1] == "worktree_name"@ && all[2] == "worktree_path"@);
    assert(all[3] == "worktree_path_hex"@ && all[4] == "branch"@ && all[5] == "session"@);
    assert(all[6] == "agent"@ && all[7] == "pane"@);
}

/// A bad record is reported with what is wrong and with its path.
pub proof fn bad_records_are_reported_with_their_path(
    error: ToolError,
    problem: Seq<char>,
    path: Seq<u8>,
)
    ensures
        is_state_error(error, problem, path) ==> error::error_text(error@) == problem + ": "@
            + bytes::utf8_lossy(path),
{
}

} // verus!
