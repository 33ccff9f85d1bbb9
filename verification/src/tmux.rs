//! What tmux is asked, and what its answers mean.

use vstd::prelude::*;
#[allow(unused_imports)]
use vstd::string::*;

use crate::bytes;
use crate::bytes::{copy_bytes, lossy_text, push_argument, push_word, utf8_of, words};
use crate::config::{Agent, AgentModel};
use crate::error;
use crate::error::{
    message, message2, message3, message4, ErrorModel, IoFailure, ToolError,
};
use crate::identity;
use crate::identity::exact_session_target;
use crate::process;
use crate::process::{CommandOutput, Invocation, InvocationModel, OutputModel};
use crate::state;
use crate::state::valid_pane_id;
use crate::text;
use crate::text::{lines_of, number, same_text, split_at_char, split_chars, trimmed};

verus! {

/// The error for a command that ended without success.
pub open spec fn tmux_failure(output: OutputModel) -> ErrorModel {
    process::failure("tmux"@, output)
}

pub fn output_error(output: &CommandOutput) -> (e: ToolError)
    ensures
        e@ == tmux_failure(output@),
{
    output.error("tmux")
}

/// What a command that must succeed has printed.
pub open spec fn printed(output: OutputModel) -> Result<Seq<char>, ErrorModel> {
    if output.success {
        Ok(bytes::utf8_lossy(output.stdout))
    } else {
        Err(tmux_failure(output))
    }
}

pub fn printed_text(output: &CommandOutput) -> (result: Result<String, ToolError>)
    ensures
        match result {
            Ok(text) => printed(output@) == Ok::<Seq<char>, ErrorModel>(text@),
            Err(e) => printed(output@) == Err::<Seq<char>, ErrorModel>(e@),
        },
{
    if output.success {
        Ok(lossy_text(output.stdout.as_slice()))
    } else {
        Err(output_error(output))
    }
}

/// A failure to run tmux at all, for someone who may not have it.
pub open spec fn unavailable(not_found: bool, detail: Seq<char>) -> ErrorModel {
    if not_found {
        ErrorModel::Message("tmux is required but was not found; install tmux and retry"@)
    } else {
        ErrorModel::Io { not_found, detail }
    }
}

pub fn missing_program(failure: IoFailure) -> (e: ToolError)
    ensures
        e@ == unavailable(failure.not_found, failure.detail@),
{
    if failure.not_found {
        message("tmux is required but was not found; install tmux and retry")
    } else {
        ToolError::Io(failure)
    }
}

/// Whether tmux can be used, given how asking it for its version went.
pub fn ensure_available(answer: Result<CommandOutput, IoFailure>) -> (result: Result<(), ToolError>)
    ensures
        match answer {
            Ok(output) => match result {
                Ok(()) => output.success,
                Err(e) => !output.success && e@ == tmux_failure(output@),
            },
            Err(failure) => result matches Err(e) && e@ == unavailable(
                failure.not_found,
                failure.detail@,
            ),
        },
{
    match answer {
        Ok(output) => if output.success {
            Ok(())
        } else {
            Err(output_error(&output))
        },
        Err(failure) => Err(missing_program(failure)),
    }
}

/// Whether a session exists: tmux ends with status 1 if it does not.
pub fn has_session(output: &CommandOutput) -> (result: Result<bool, ToolError>)
    ensures
        match result {
            Ok(exists_) => if exists_ {
                output.success
            } else {
                !output.success && output.code == Some(1i32)
            },
            Err(e) => !output.success && output.code != Some(1i32) && e@ == tmux_failure(output@),
        },
{
    if output.success {
        return Ok(true);
    }
    if let Some(code) = output.code {
        if code == 1 {
            return Ok(false);
        }
    }
    Err(output_error(output))
}

/// The second column of the first line whose first column is the name.
pub open spec fn listed_id(lines: Seq<Seq<char>>, name: Seq<char>) -> Option<Seq<char>>
    decreases lines.len(),
{
    if lines.len() == 0 {
        None
    } else {
        match text::split_once(lines[0], '\t') {
            Some((first, id)) => if first == name {
                Some(id)
            } else {
                listed_id(lines.skip(1), name)
            },
            None => listed_id(lines.skip(1), name),
        }
    }
}

/// Finds the identifier of a session in a list of names and identifiers.
pub fn session_id(listing: &str, session: &str) -> (result: Result<String, ToolError>)
    ensures
        match result {
            Ok(id) => listed_id(text::lines(listing@), session@) == Some(id@),
            Err(e) => listed_id(text::lines(listing@), session@) is None && error::is_message(
                e,
                "tmux session "@ + session@ + " no longer exists"@,
            ),
        },
{
    let lines: Vec<String> = lines_of(listing);
    let ghost all = text::lines(listing@);
    let mut i: usize = 0;
    assert(all.skip(0) =~= all);
    while i < lines.len()
        invariant
            all == text::lines(listing@),
            text::views(lines@) == all,
            i <= lines@.len(),
            listed_id(all.skip(i as int), session@) == listed_id(all, session@),
        decreases lines@.len() - i,
    {
        assert(all.skip(i as int)[0] == text::views(lines@)[i as int]);
        assert(text::views(lines@)[i as int] == lines@[i as int]@);
        if let Some((name, id)) = split_at_char(lines[i].as_str(), '\t') {
            if same_text(name.as_str(), session) {
                return Ok(id);
            }
        }
        assert(all.skip(i as int).skip(1) =~= all.skip(i + 1));
        i = i + 1;
    }
    assert(lines@.len() == text::views(lines@).len());
    Err(message3("tmux session ", session, " no longer exists"))
}

/// The first line that shows something, without the space around it.
pub open spec fn first_visible(lines: Seq<Seq<char>>) -> Seq<char>
    decreases lines.len(),
{
    if lines.len() == 0 {
        Seq::empty()
    } else if text::trim(lines[0]).len() > 0 {
        text::trim(lines[0])
    } else {
        first_visible(lines.skip(1))
    }
}

fn first_visible_line(listing: &str) -> (out: String)
    ensures
        out@ == first_visible(text::lines(listing@)),
{
    let lines: Vec<String> = lines_of(listing);
    let ghost all = text::lines(listing@);
    let mut i: usize = 0;
    assert(all.skip(0) =~= all);
    while i < lines.len()
        invariant
            all == text::lines(listing@),
            text::views(lines@) == all,
            i <= lines@.len(),
            first_visible(all.skip(i as int)) == first_visible(all),
        decreases lines@.len() - i,
    {
        assert(all.skip(i as int)[0] == text::views(lines@)[i as int]);
        assert(text::views(lines@)[i as int] == lines@[i as int]@);
        let line: String = trimmed(lines[i].as_str());
        if !line.as_str().is_empty() {
            return line;
        }
        assert(all.skip(i as int).skip(1) =~= all.skip(i + 1));
        i = i + 1;
    }
    assert(lines@.len() == text::views(lines@).len());
    let none: String = String::new();
    assert(none@ =~= Seq::<char>::empty());
    none
}

/// The target for the first window of a session.
pub open spec fn window_target(name: Seq<char>, index: Seq<char>) -> Seq<char> {
    identity::exact_target(name) + ":"@ + index
}

/// Reads the target of the first window from a list of window indices.
pub fn session_window_target(listing: &str, name: &str) -> (result: Result<String, ToolError>)
    ensures
        ({
            let index = first_visible(text::lines(listing@));
            match result {
                Ok(target) => text::is_number(index) && target@ == window_target(name@, index),
                Err(e) => !text::is_number(index) && error::is_message(
                    e,
                    "tmux session "@ + name@ + " returned an invalid window index"@,
                ),
            }
        }),
{
    let index: String = first_visible_line(listing);
    if !number(index.as_str()) {
        return Err(message3("tmux session ", name, " returned an invalid window index"));
    }
    let mut target: String = exact_session_target(name);
    target.append(":");
    target.append(index.as_str());
    Ok(target)
}

/// What is said of a pane: its window and whether it is alive.
pub open spec fn pane_report(
    detail: Seq<char>,
    name: Seq<char>,
    pane: Seq<char>,
) -> Result<(Seq<char>, bool), Seq<char>> {
    let fields = text::split(text::trim(detail), '|');
    if fields.len() != 3 {
        Err("tmux pane "@ + pane + " returned invalid metadata"@)
    } else if fields[0] != name {
        Err("tmux pane "@ + pane + " does not belong to exact session "@ + name)
    } else if fields[1].len() == 0 {
        Err("tmux pane "@ + pane + " returned an empty window index"@)
    } else if fields[2] == "0"@ {
        Ok((fields[1], true))
    } else if fields[2] == "1"@ {
        Ok((fields[1], false))
    } else {
        Err("tmux pane "@ + pane + " returned an invalid liveness value"@)
    }
}

/// Reads session, window and liveness of a pane.
pub fn pane_metadata(detail: &str, name: &str, pane: &str) -> (result: Result<
    (String, bool),
    ToolError,
>)
    ensures
        match result {
            Ok((window, alive)) => pane_report(detail@, name@, pane@) == Ok::<
                (Seq<char>, bool),
                Seq<char>,
            >((window@, alive)),
            Err(e) => pane_report(detail@, name@, pane@) matches Err(problem) && error::is_message(
                e,
                problem,
            ),
        },
{
    let fields: Vec<String> = split_chars(trimmed(detail).as_str(), '|');
    let ghost all = text::split(text::trim(detail@), '|');
    assert(fields@.len() == text::views(fields@).len());
    if fields.len() != 3 {
        return Err(message3("tmux pane ", pane, " returned invalid metadata"));
    }
    assert(all[0] == fields@[0]@);
    assert(all[1] == fields@[1]@);
    assert(all[2] == fields@[2]@);
    if !same_text(fields[0].as_str(), name) {
        return Err(message4("tmux pane ", pane, " does not belong to exact session ", name));
    }
    if fields[1].as_str().is_empty() {
        return Err(message3("tmux pane ", pane, " returned an empty window index"));
    }
    let alive: bool = if same_text(fields[2].as_str(), "0") {
        true
    } else if same_text(fields[2].as_str(), "1") {
        false
    } else {
        return Err(message3("tmux pane ", pane, " returned an invalid liveness value"));
    };
    Ok((fields[1].clone(), alive))
}

/// The target for a pane, which has to be alive.
pub open spec fn pane_address(
    detail: Seq<char>,
    name: Seq<char>,
    pane: Seq<char>,
) -> Result<Seq<char>, Seq<char>> {
    match pane_report(detail, name, pane) {
        Ok((window, alive)) => if alive {
            Ok(window_target(name, window) + "."@ + pane)
        } else {
            Err("tmux pane "@ + pane + " is dead"@)
        },
        Err(problem) => Err(problem),
    }
}

pub fn pane_target(detail: &str, name: &str, pane: &str) -> (result: Result<String, ToolError>)
    ensures
        match result {
            Ok(target) => pane_address(detail@, name@, pane@) == Ok::<Seq<char>, Seq<char>>(
                target@,
            ),
            Err(e) => pane_address(detail@, name@, pane@) matches Err(problem) && error::is_message(
                e,
                problem,
            ),
        },
{
    match pane_metadata(detail, name, pane) {
        Ok((window, alive)) => {
            if !alive {
                return Err(message3("tmux pane ", pane, " is dead"));
            }
            let mut target: String = exact_session_target(name);
            target.append(":");
            target.append(window.as_str());
            target.append(".");
            target.append(pane);
            Ok(target)
        },
        Err(e) => Err(e),
    }
}

/// Refuses what is not a pane identifier.
pub fn check_pane_id(pane: &str) -> (result: Result<(), ToolError>)
    ensures
        match result {
            Ok(()) => state::is_pane_id(pane@),
            Err(e) => !state::is_pane_id(pane@) && error::is_message(
                e,
                "tmux pane target is invalid: "@ + pane@,
            ),
        },
{
    if valid_pane_id(pane) {
        Ok(())
    } else {
        Err(message2("tmux pane target is invalid: ", pane))
    }
}

/// The pane of the agent: the first one listed, which has to be alive.
pub open spec fn first_pane(listing: Seq<char>, name: Seq<char>) -> Result<Seq<char>, Seq<char>> {
    let lines = text::lines(listing);
    if lines.len() == 0 {
        Err("tmux session "@ + name + " has no agent pane"@)
    } else {
        let fields = text::split(lines[0], '|');
        if fields.len() != 3 {
            Err("tmux session "@ + name + " returned invalid pane metadata"@)
        } else if fields[1] != name {
            Err("tmux pane "@ + fields[0] + " does not belong to exact session "@ + name)
        } else if !state::is_pane_id(fields[0]) {
            Err("tmux session "@ + name + " returned an invalid pane id"@)
        } else if fields[2] == "0"@ {
            Ok(fields[0])
        } else if fields[2] == "1"@ {
            Err("tmux pane "@ + fields[0] + " is dead"@)
        } else {
            Err("tmux session "@ + name + " returned an invalid pane liveness value"@)
        }
    }
}

/// Reads the pane of the agent from a list of panes.
pub fn agent_pane(listing: &str, name: &str) -> (result: Result<String, ToolError>)
    ensures
        match result {
            Ok(pane) => first_pane(listing@, name@) == Ok::<Seq<char>, Seq<char>>(pane@),
            Err(e) => first_pane(listing@, name@) matches Err(problem) && error::is_message(
                e,
                problem,
            ),
        },
{
    let lines: Vec<String> = lines_of(listing);
    assert(lines@.len() == text::views(lines@).len());
    if lines.len() == 0 {
        return Err(message3("tmux session ", name, " has no agent pane"));
    }
    assert(text::lines(listing@)[0] == lines@[0]@);
    let fields: Vec<String> = split_chars(lines[0].as_str(), '|');
    let ghost all = text::split(lines@[0]@, '|');
    assert(fields@.len() == text::views(fields@).len());
    if fields.len() != 3 {
        return Err(message3("tmux session ", name, " returned invalid pane metadata"));
    }
    assert(all[0] == fields@[0]@);
    assert(all[1] == fields@[1]@);
    assert(all[2] == fields@[2]@);
    let pane: &str = fields[0].as_str();
    if !same_text(fields[1].as_str(), name) {
        return Err(message4("tmux pane ", pane, " does not belong to exact session ", name));
    }
    if !valid_pane_id(pane) {
        return Err(message3("tmux session ", name, " returned an invalid pane id"));
    }
    if same_text(fields[2].as_str(), "0") {
        Ok(fields[0].clone())
    } else if same_text(fields[2].as_str(), "1") {
        Err(message3("tmux pane ", pane, " is dead"))
    } else {
        Err(message3("tmux session ", name, " returned an invalid pane liveness value"))
    }
}

/// Whether a pane is alive in the session that it should belong to.
pub open spec fn liveness(
    detail: Seq<char>,
    name: Seq<char>,
    pane: Seq<char>,
) -> Result<bool, Seq<char>> {
    let fields = text::split(text::trim(detail), '|');
    if fields.len() != 2 {
        Err("tmux pane "@ + pane + " returned invalid liveness metadata"@)
    } else if fields[0] != name {
        Ok(false)
    } else if fields[1] == "0"@ {
        Ok(true)
    } else if fields[1] == "1"@ {
        Ok(false)
    } else {
        Err("tmux pane "@ + pane + " returned an invalid liveness value"@)
    }
}

/// Whether a pane is alive, given how asking for it went: tmux ends with status
/// 1 if there is no such pane.
pub fn pane_is_alive(output: &CommandOutput, name: &str, pane: &str) -> (result: Result<
    bool,
    ToolError,
>)
    ensures
        match result {
            Ok(alive) => if output.success {
                liveness(bytes::utf8_lossy(output.stdout@), name@, pane@) == Ok::<bool, Seq<char>>(
                    alive,
                )
            } else {
                output.code == Some(1i32) && !alive
            },
            Err(e) => if output.success {
                liveness(bytes::utf8_lossy(output.stdout@), name@, pane@) matches Err(problem)
                    && error::is_message(e, problem)
            } else {
                output.code != Some(1i32) && e@ == tmux_failure(output@)
            },
        },
{
    if !output.success {
        if let Some(code) = output.code {
            if code == 1 {
                return Ok(false);
            }
        }
        return Err(output_error(output));
    }
    let detail: String = lossy_text(output.stdout.as_slice());
    let fields: Vec<String> = split_chars(trimmed(detail.as_str()).as_str(), '|');
    let ghost all = text::split(text::trim(detail@), '|');
    assert(fields@.len() == text::views(fields@).len());
    if fields.len() != 2 {
        return Err(message3("tmux pane ", pane, " returned invalid liveness metadata"));
    }
    assert(all[0] == fields@[0]@);
    assert(all[1] == fields@[1]@);
    if !same_text(fields[0].as_str(), name) {
        return Ok(false);
    }
    if same_text(fields[1].as_str(), "0") {
        Ok(true)
    } else if same_text(fields[1].as_str(), "1") {
        Ok(false)
    } else {
        Err(message3("tmux pane ", pane, " returned an invalid liveness value"))
    }
}

/// A command for tmux.
#[derive(Debug)]
pub enum TmuxCommand {
    Version,
    HasSession { session: String },
    /// All sessions with their identifiers.
    ListSessions,
    NewSession { session: String, cwd: Vec<u8>, agent: Agent },
    KillSession { id: String },
    AttachSession { id: String },
    ListWindows { session: String },
    ListPanes { session: String },
    /// Session, window and liveness of a pane.
    DescribePane { pane: String },
    /// Session and liveness of a pane.
    ProbePane { pane: String },
    SetOption { target: String, option: String, value: String },
    /// An option of a window.
    SetWindowOption { target: String, option: String, value: String },
    /// An option of the whole server.
    SetServerOption { option: String, value: String },
    ShowOption { target: String, option: String },
    ListKeys { table: String },
    ClearKeys { table: String },
    SourceFile { path: Vec<u8> },
    DeleteBuffer { buffer: String },
    /// Paste what comes on standard input, then submit it.
    Paste { buffer: String, pane: String },
    /// Submit what is there.
    Enter { pane: String },
}

#[verifier::ext_equal]
pub enum CommandModel {
    Version,
    HasSession { session: Seq<char> },
    ListSessions,
    NewSession { session: Seq<char>, cwd: Seq<u8>, agent: AgentModel },
    KillSession { id: Seq<char> },
    AttachSession { id: Seq<char> },
    ListWindows { session: Seq<char> },
    ListPanes { session: Seq<char> },
    DescribePane { pane: Seq<char> },
    ProbePane { pane: Seq<char> },
    SetOption { target: Seq<char>, option: Seq<char>, value: Seq<char> },
    SetWindowOption { target: Seq<char>, option: Seq<char>, value: Seq<char> },
    SetServerOption { option: Seq<char>, value: Seq<char> },
    ShowOption { target: Seq<char>, option: Seq<char> },
    ListKeys { table: Seq<char> },
    ClearKeys { table: Seq<char> },
    SourceFile { path: Seq<u8> },
    DeleteBuffer { buffer: Seq<char> },
    Paste { buffer: Seq<char>, pane: Seq<char> },
    Enter { pane: Seq<char> },
}

impl View for TmuxCommand {
    type V = CommandModel;

    open spec fn view(&self) -> CommandModel {
        match self {
            TmuxCommand::Version => CommandModel::Version,
            TmuxCommand::HasSession { session } => CommandModel::HasSession { session: session@ },
            TmuxCommand::ListSessions => CommandModel::ListSessions,
            TmuxCommand::NewSession { session, cwd, agent } => CommandModel::NewSession {
                session: session@,
                cwd: cwd@,
                agent: agent@,
            },
            TmuxCommand::KillSession { id } => CommandModel::KillSession { id: id@ },
            TmuxCommand::AttachSession { id } => CommandModel::AttachSession { id: id@ },
            TmuxCommand::ListWindows { session } => CommandModel::ListWindows { session: session@ },
            TmuxCommand::ListPanes { session } => CommandModel::ListPanes { session: session@ },
            TmuxCommand::DescribePane { pane } => CommandModel::DescribePane { pane: pane@ },
            TmuxCommand::ProbePane { pane } => CommandModel::ProbePane { pane: pane@ },
            TmuxCommand::SetOption { target, option, value } => CommandModel::SetOption {
                target: target@,
                option: option@,
                value: value@,
            },
            TmuxCommand::SetWindowOption { target, option, value } => CommandModel::SetWindowOption {
                target: target@,
                option: option@,
                value: value@,
            },
            TmuxCommand::SetServerOption { option, value } => CommandModel::SetServerOption {
                option: option@,
                value: value@,
            },
            TmuxCommand::ShowOption { target, option } => CommandModel::ShowOption {
                target: target@,
                option: option@,
            },
            TmuxCommand::ListKeys { table } => CommandModel::ListKeys { table: table@ },
            TmuxCommand::ClearKeys { table } => CommandModel::ClearKeys { table: table@ },
            TmuxCommand::SourceFile { path } => CommandModel::SourceFile { path: path@ },
            TmuxCommand::DeleteBuffer { buffer } => CommandModel::DeleteBuffer { buffer: buffer@ },
            TmuxCommand::Paste { buffer, pane } => CommandModel::Paste {
                buffer: buffer@,
                pane: pane@,
            },
            TmuxCommand::Enter { pane } => CommandModel::Enter { pane: pane@ },
        }
    }
}

/// Every command starts without the configuration of the user.
pub open spec fn command_words(words: Seq<Seq<char>>) -> Seq<Seq<u8>> {
    bytes::arguments(seq!["-f"@, "/dev/null"@] + words)
}

/// Pasting, then submitting: the message itself comes on standard input.
pub open spec fn paste_words(buffer: Seq<char>, pane: Seq<char>) -> Seq<Seq<char>> {
    seq![
        "load-buffer"@,
        "-b"@,
        buffer,
        "-"@,
        ";"@,
        "paste-buffer"@,
        "-dprS"@,
        "-b"@,
        buffer,
        "-t"@,
        pane,
        ";"@,
        "send-keys"@,
        "-t"@,
        pane,
        "Enter"@,
    ]
}

/// The arguments for a command.
pub open spec fn tmux_arguments(command: CommandModel) -> Seq<Seq<u8>> {
    match command {
        CommandModel::Version => command_words(seq!["-V"@]),
        CommandModel::HasSession { session } => command_words(
            seq!["has-session"@, "-t"@, identity::exact_target(session)],
        ),
        CommandModel::ListSessions => command_words(
            seq!["list-sessions"@, "-F"@, "#{session_name}\t#{session_id}"@],
        ),
        CommandModel::NewSession { session, cwd, agent } => command_words(
            seq!["new-session"@, "-d"@, "-P"@, "-F"@, "#{pane_id}"@, "-s"@, session, "-c"@],
        ).push(cwd) + bytes::arguments(seq!["--"@, agent.command] + agent.args),
        CommandModel::KillSession { id } => command_words(seq!["kill-session"@, "-t"@, id]),
        CommandModel::AttachSession { id } => command_words(seq!["attach-session"@, "-t"@, id]),
        CommandModel::ListWindows { session } => command_words(
            seq![
                "list-windows"@,
                "-F"@,
                "#{window_index}"@,
                "-t"@,
                identity::exact_target(session),
            ],
        ),
        CommandModel::ListPanes { session } => command_words(
            seq![
                "list-panes"@,
                "-s"@,
                "-t"@,
                identity::exact_target(session),
                "-F"@,
                "#{pane_id}|#{session_name}|#{pane_dead}"@,
            ],
        ),
        CommandModel::DescribePane { pane } => command_words(
            seq![
                "display-message"@,
                "-p"@,
                "-t"@,
                pane,
                "#{session_name}|#{window_index}|#{pane_dead}"@,
            ],
        ),
        CommandModel::ProbePane { pane } => command_words(
            seq!["display-message"@, "-p"@, "-t"@, pane, "#{session_name}|#{pane_dead}"@],
        ),
        CommandModel::SetOption { target, option, value } => command_words(
            seq!["set-option"@, "-t"@, target, option, value],
        ),
        CommandModel::SetWindowOption { target, option, value } => command_words(
            seq!["set-option"@, "-w"@, "-t"@, target, option, value],
        ),
        CommandModel::SetServerOption { option, value } => command_words(
            seq!["set-option"@, "-s"@, option, value],
        ),
        CommandModel::ShowOption { target, option } => command_words(
            seq!["show-option"@, "-v"@, "-t"@, target, option],
        ),
        CommandModel::ListKeys { table } => command_words(
            seq!["list-keys"@, "-T"@, table, "-a"@],
        ),
        CommandModel::ClearKeys { table } => command_words(
            seq!["unbind-key"@, "-q"@, "-a"@, "-T"@, table],
        ),
        CommandModel::SourceFile { path } => command_words(seq!["source-file"@]).push(path),
        CommandModel::DeleteBuffer { buffer } => command_words(
            seq!["delete-buffer"@, "-b"@, buffer],
        ),
        CommandModel::Paste { buffer, pane } => command_words(paste_words(buffer, pane)),
        CommandModel::Enter { pane } => command_words(seq!["send-keys"@, "-t"@, pane, "Enter"@]),
    }
}

/// The words of a command behind those that all commands start with.
fn command(list: &[&str]) -> (out: Vec<Vec<u8>>)
    ensures
        bytes::byte_views(out@) == command_words(bytes::word_views(list@)),
{
    let mut out: Vec<Vec<u8>> = words(&["-f", "/dev/null"]);
    let ghost all = bytes::word_views(list@);
    let mut i: usize = 0;
    assert(bytes::byte_views(out@) =~= command_words(all.take(0)));
    while i < list.len()
        invariant
            i <= list@.len(),
            all == bytes::word_views(list@),
            bytes::byte_views(out@) == command_words(all.take(i as int)),
        decreases list@.len() - i,
    {
        let ghost before = bytes::byte_views(out@);
        push_word(&mut out, list[i]);
        assert(bytes::byte_views(out@) =~= command_words(all.take(i + 1)));
        i = i + 1;
    }
    assert(all.take(i as int) =~= all);
    out
}

impl TmuxCommand {
    pub fn arguments(&self) -> (out: Vec<Vec<u8>>)
        ensures
            bytes::byte_views(out@) == tmux_arguments(self@),
    {
        match self {
            TmuxCommand::Version => {
                let out: Vec<Vec<u8>> = command(&["-V"]);
                assert(bytes::byte_views(out@) =~= tmux_arguments(self@));
                out
            },
            TmuxCommand::HasSession { session } => {
                let target: String = exact_session_target(session.as_str());
                let out: Vec<Vec<u8>> = command(&["has-session", "-t", target.as_str()]);
                assert(bytes::byte_views(out@) =~= tmux_arguments(self@));
                out
            },
            TmuxCommand::ListSessions => {
                let out: Vec<Vec<u8>> = command(
                    &["list-sessions", "-F", "#{session_name}\t#{session_id}"],
                );
                assert(bytes::byte_views(out@) =~= tmux_arguments(self@));
                out
            },
            TmuxCommand::NewSession { session, cwd, agent } => {
                new_session(session.as_str(), cwd.as_slice(), agent)
            },
            TmuxCommand::KillSession { id } => {
                let out: Vec<Vec<u8>> = command(&["kill-session", "-t", id.as_str()]);
                assert(bytes::byte_views(out@) =~= tmux_arguments(self@));
                out
            },
            TmuxCommand::AttachSession { id } => {
                let out: Vec<Vec<u8>> = command(&["attach-session", "-t", id.as_str()]);
                assert(bytes::byte_views(out@) =~= tmux_arguments(self@));
                out
            },
            TmuxCommand::ListWindows { session } => {
                let target: String = exact_session_target(session.as_str());
                let out: Vec<Vec<u8>> = command(
                    &["list-windows", "-F", "#{window_index}", "-t", target.as_str()],
                );
                assert(bytes::byte_views(out@) =~= tmux_arguments(self@));
                out
            },
            TmuxCommand::ListPanes { session } => {
                let target: String = exact_session_target(session.as_str());
                let out: Vec<Vec<u8>> = command(
                    &[
                        "list-panes",
                        "-s",
                        "-t",
                        target.as_str(),
                        "-F",
                        "#{pane_id}|#{session_name}|#{pane_dead}",
                    ],
                );
                assert(bytes::byte_views(out@) =~= tmux_arguments(self@));
                out
            },
            TmuxCommand::DescribePane { pane } => {
                let out: Vec<Vec<u8>> = command(
                    &[
                        "display-message",
                        "-p",
                        "-t",
                        pane.as_str(),
                        "#{session_name}|#{window_index}|#{pane_dead}",
                    ],
                );
                assert(bytes::byte_views(out@) =~= tmux_arguments(self@));
                out
            },
            TmuxCommand::ProbePane { pane } => {
                let out: Vec<Vec<u8>> = command(
                    &[
                        "display-message",
                        "-p",
                        "-t",
                        pane.as_str(),
                        "#{session_name}|#{pane_dead}",
                    ],
                );
                assert(bytes::byte_views(out@) =~= tmux_arguments(self@));
                out
            },
            TmuxCommand::SetOption { target, option, value } => {
                let out: Vec<Vec<u8>> = command(
                    &["set-option", "-t", target.as_str(), option.as_str(), value.as_str()],
                );
                assert(bytes::byte_views(out@) =~= tmux_arguments(self@));
                out
            },
            TmuxCommand::SetWindowOption { target, option, value } => {
                let out: Vec<Vec<u8>> = command(
                    &["set-option", "-w", "-t", target.as_str(), option.as_str(), value.as_str()],
                );
                assert(bytes::byte_views(out@) =~= tmux_arguments(self@));
                out
            },
            TmuxCommand::SetServerOption { option, value } => {
                let out: Vec<Vec<u8>> = command(
                    &["set-option", "-s", option.as_str(), value.as_str()],
                );
                assert(bytes::byte_views(out@) =~= tmux_arguments(self@));
                out
            },
            TmuxCommand::ShowOption { target, option } => {
                let out: Vec<Vec<u8>> = command(
                    &["show-option", "-v", "-t", target.as_str(), option.as_str()],
                );
                assert(bytes::byte_views(out@) =~= tmux_arguments(self@));
                out
            },
            TmuxCommand::ListKeys { table } => {
                let out: Vec<Vec<u8>> = command(&["list-keys", "-T", table.as_str(), "-a"]);
                assert(bytes::byte_views(out@) =~= tmux_arguments(self@));
                out
            },
            TmuxCommand::ClearKeys { table } => {
                let out: Vec<Vec<u8>> = command(&["unbind-key", "-q", "-a", "-T", table.as_str()]);
                assert(bytes::byte_views(out@) =~= tmux_arguments(self@));
                out
            },
            TmuxCommand::SourceFile { path } => {
                let mut out: Vec<Vec<u8>> = command(&["source-file"]);
                assert(bytes::byte_views(out@) =~= command_words(seq!["source-file"@]));
                push_argument(&mut out, path.as_slice());
                out
            },
            TmuxCommand::DeleteBuffer { buffer } => {
                let out: Vec<Vec<u8>> = command(&["delete-buffer", "-b", buffer.as_str()]);
                assert(bytes::byte_views(out@) =~= tmux_arguments(self@));
                out
            },
            TmuxCommand::Paste { buffer, pane } => paste(buffer.as_str(), pane.as_str()),
            TmuxCommand::Enter { pane } => {
                let out: Vec<Vec<u8>> = command(&["send-keys", "-t", pane.as_str(), "Enter"]);
                assert(bytes::byte_views(out@) =~= tmux_arguments(self@));
                out
            },
        }
    }
}

fn paste(buffer: &str, pane: &str) -> (out: Vec<Vec<u8>>)
    ensures
        bytes::byte_views(out@) == command_words(paste_words(buffer@, pane@)),
{
    let out: Vec<Vec<u8>> = command(
        &[
            "load-buffer",
            "-b",
            buffer,
            "-",
            ";",
            "paste-buffer",
            "-dprS",
            "-b",
            buffer,
            "-t",
            pane,
            ";",
            "send-keys",
            "-t",
            pane,
            "Enter",
        ],
    );
    assert(bytes::byte_views(out@) =~= command_words(paste_words(buffer@, pane@)));
    out
}

fn new_session(session: &str, cwd: &[u8], agent: &Agent) -> (out: Vec<Vec<u8>>)
    ensures
        bytes::byte_views(out@) == command_words(
            seq!["new-session"@, "-d"@, "-P"@, "-F"@, "#{pane_id}"@, "-s"@, session@, "-c"@],
        ).push(cwd@) + bytes::arguments(seq!["--"@, agent@.command] + agent@.args),
{
    let mut out: Vec<Vec<u8>> = command(
        &["new-session", "-d", "-P", "-F", "#{pane_id}", "-s", session, "-c"],
    );
    let ghost first = command_words(
        seq!["new-session"@, "-d"@, "-P"@, "-F"@, "#{pane_id}"@, "-s"@, session@, "-c"@],
    );
    assert(bytes::byte_views(out@) =~= first);
    push_argument(&mut out, cwd);
    push_word(&mut out, "--");
    push_word(&mut out, agent.command.as_str());
    let ghost rest = bytes::arguments(seq!["--"@, agent@.command] + agent@.args);
    let mut i: usize = 0;
    assert(bytes::byte_views(out@) =~= first.push(cwd@) + rest.take(2));
    while i < agent.args.len()
        invariant
            i <= agent.args@.len(),
            rest == bytes::arguments(seq!["--"@, agent@.command] + agent@.args),
            bytes::byte_views(out@) == first.push(cwd@) + rest.take(i + 2),
        decreases agent.args@.len() - i,
    {
        push_word(&mut out, agent.args[i].as_str());
        assert(rest[i + 2] == vstd::utf8::encode_utf8(agent@.args[i as int]));
        assert(rest.take(i + 3) =~= rest.take(i + 2).push(rest[i + 2]));
        assert(bytes::byte_views(out@) =~= first.push(cwd@) + rest.take(i + 3));
        i = i + 1;
    }
    assert(rest.take(i + 2) =~= rest);
    out
}

/// The tmux to run.
#[derive(Debug)]
pub struct TmuxBackend {
    pub program: Vec<u8>,
}

impl TmuxBackend {
    pub fn new(program: Vec<u8>) -> (tmux: TmuxBackend)
        ensures
            tmux.program == program,
    {
        TmuxBackend { program }
    }

    /// What to run for a command.
    pub fn command(&self, command: &TmuxCommand) -> (out: Invocation)
        ensures
            out@ == (InvocationModel {
                program: self.program@,
                directory: None,
                arguments: tmux_arguments(command@),
            }),
    {
        Invocation {
            program: copy_bytes(self.program.as_slice()),
            directory: None,
            arguments: command.arguments(),
        }
    }
}

impl Default for TmuxBackend {
    fn default() -> (tmux: TmuxBackend)
        ensures
            tmux.program@ == vstd::utf8::encode_utf8("tmux"@),
    {
        TmuxBackend::new(utf8_of("tmux"))
    }
}

/// No command reads the configuration of the user.
pub proof fn commands_are_isolated(command: CommandModel)
    ensures
        tmux_arguments(command).len() > 2,
        tmux_arguments(command)[0] == vstd::utf8::encode_utf8("-f"@),
        tmux_arguments(command)[1] == vstd::utf8::encode_utf8("/dev/null"@),
{
}

/// What a session is named in commands matches no other session.
pub proof fn targets_are_exact(name: Seq<char>, other: Seq<char>)
    requires
        identity::exact_target(name) == identity::exact_target(other),
    ensures
        name == other,
{
    let n = "="@.len() as int;
    assert(identity::exact_target(name).skip(n) =~= name);
    assert(identity::exact_target(other).skip(n) =~= other);
}

/// The words of a command, behind those that keep the configuration of the user out.
pub open spec fn is_command(arguments: Seq<Seq<u8>>, words: Seq<Seq<char>>) -> bool {
    arguments == bytes::arguments(seq!["-f"@, "/dev/null"@] + words)
}

/// What tmux is asked for, word by word: a session is named exactly, and everything that
/// is already known by its identifier is named by that.
pub proof fn tmux_is_asked_like_this(
    session: Seq<char>,
    id: Seq<char>,
    pane: Seq<char>,
    option: Seq<char>,
    value: Seq<char>,
    table: Seq<char>,
    buffer: Seq<char>,
)
    ensures
        is_command(tmux_arguments(CommandModel::Version), seq!["-V"@]),
        is_command(
            tmux_arguments(CommandModel::HasSession { session }),
            seq!["has-session"@, "-t"@, "="@ + session],
        ),
        is_command(
            tmux_arguments(CommandModel::ListSessions),
            seq!["list-sessions"@, "-F"@, "#{session_name}\t#{session_id}"@],
        ),
        is_command(
            tmux_arguments(CommandModel::KillSession { id }),
            seq!["kill-session"@, "-t"@, id],
        ),
        is_command(
            tmux_arguments(CommandModel::AttachSession { id }),
            seq!["attach-session"@, "-t"@, id],
        ),
        is_command(
            tmux_arguments(CommandModel::ListWindows { session }),
            seq!["list-windows"@, "-F"@, "#{window_index}"@, "-t"@, "="@ + session],
        ),
        is_command(
            tmux_arguments(CommandModel::ListPanes { session }),
            seq![
                "list-panes"@,
                "-s"@,
                "-t"@,
                "="@ + session,
                "-F"@,
                "#{pane_id}|#{session_name}|#{pane_dead}"@,
            ],
        ),
        is_command(
            tmux_arguments(CommandModel::DescribePane { pane }),
            seq![
                "display-message"@,
                "-p"@,
                "-t"@,
                pane,
                "#{session_name}|#{window_index}|#{pane_dead}"@,
            ],
        ),
        is_command(
            tmux_arguments(CommandModel::ProbePane { pane }),
            seq!["display-message"@, "-p"@, "-t"@, pane, "#{session_name}|#{pane_dead}"@],
        ),
        is_command(
            tmux_arguments(CommandModel::SetOption { target: id, option, value }),
            seq!["set-option"@, "-t"@, id, option, value],
        ),
        is_command(
            tmux_arguments(CommandModel::SetWindowOption { target: id, option, value }),
            seq!["set-option"@, "-w"@, "-t"@, id, option, value],
        ),
        is_command(
            tmux_arguments(CommandModel::SetServerOption { option, value }),
            seq!["set-option"@, "-s"@, option, value],
        ),
        is_command(
            tmux_arguments(CommandModel::ShowOption { target: id, option }),
            seq!["show-option"@, "-v"@, "-t"@, id, option],
        ),
        is_command(
            tmux_arguments(CommandModel::ListKeys { table }),
            seq!["list-keys"@, "-T"@, table, "-a"@],
        ),
        is_command(
            tmux_arguments(CommandModel::ClearKeys { table }),
            seq!["unbind-key"@, "-q"@, "-a"@, "-T"@, table],
        ),
        is_command(
            tmux_arguments(CommandModel::DeleteBuffer { buffer }),
            seq!["delete-buffer"@, "-b"@, buffer],
        ),
        is_command(
            tmux_arguments(CommandModel::Enter { pane }),
            seq!["send-keys"@, "-t"@, pane, "Enter"@],
        ),
{
}

/// A message is read from standard input into its buffer, pasted into the pane from
/// there, and submitted there, one after the other.
pub proof fn messages_go_through_a_buffer(buffer: Seq<char>, pane: Seq<char>)
    ensures
        is_command(
            tmux_arguments(CommandModel::Paste { buffer, pane }),
            seq!["load-buffer"@, "-b"@, buffer, "-"@, ";"@] + seq![
                "paste-buffer"@,
                "-dprS"@,
                "-b"@,
                buffer,
                "-t"@,
                pane,
                ";"@,
            ] + seq!["send-keys"@, "-t"@, pane, "Enter"@],
        ),
{
    assert(paste_words(buffer, pane) =~= seq!["load-buffer"@, "-b"@, buffer, "-"@, ";"@] + seq![
        "paste-buffer"@,
        "-dprS"@,
        "-b"@,
        buffer,
        "-t"@,
        pane,
        ";"@,
    ] + seq!["send-keys"@, "-t"@, pane, "Enter"@]);
}

/// A session is started in the background, under its name and in its directory, with the
/// command of the agent and all its arguments, in their order, at the end.
pub proof fn sessions_run_the_agent_as_it_is(
    session: Seq<char>,
    cwd: Seq<u8>,
    agent: AgentModel,
)
    ensures
        ({
            let all = tmux_arguments(CommandModel::NewSession { session, cwd, agent });
            let word = |text: Seq<char>| vstd::utf8::encode_utf8(text);
            &&& all.len() == 13 + agent.args.len()
            &&& all[2] == word("new-session"@) && all[3] == word("-d"@) && all[4] == word("-P"@)
            &&& all[5] == word("-F"@) && all[6] == word("#{pane_id}"@)
            &&& all[7] == word("-s"@) && all[8] == word(session)
            &&& all[9] == word("-c"@) && all[10] == cwd
            &&& all[11] == word("--"@) && all[12] == word(agent.command)
            &&& forall|i: int|
                0 <= i < agent.args.len() ==> word(#[trigger] agent.args[i]) == all[13 + i]
        }),
{
}

/// A file with settings is named by its path.
pub proof fn files_are_loaded_by_their_path(path: Seq<u8>)
    ensures
        tmux_arguments(CommandModel::SourceFile { path }) == bytes::arguments(
            seq!["-f"@, "/dev/null"@, "source-file"@],
        ).push(path),
{
    assert(seq!["-f"@, "/dev/null"@] + seq!["source-file"@] =~= seq![
        "-f"@,
        "/dev/null"@,
        "source-file"@,
    ]);
}

/// A command that ended with success has printed what it has printed, and one that did
/// not is an error of tmux.
pub proof fn successful_commands_are_read(output: OutputModel)
    ensures
        output.success ==> printed(output) == Ok::<Seq<char>, ErrorModel>(
            bytes::utf8_lossy(output.stdout),
        ),
        !output.success ==> printed(output) == Err::<Seq<char>, ErrorModel>(
            ErrorModel::Command {
                program: "tmux"@,
                detail: error::failure_detail(output.stdout, output.stderr, output.status),
            },
        ),
{
}

/// Somebody without tmux is told to install it; other failures stay what they are.
pub proof fn missing_programs_are_named(not_found: bool, detail: Seq<char>)
    ensures
        unavailable(true, detail) == ErrorModel::Message(
            "tmux is required but was not found; install tmux and retry"@,
        ),
        unavailable(false, detail) == (ErrorModel::Io { not_found: false, detail }),
{
}

/// The identifier of a session stands behind its name on the first line that has it,
/// whatever other sessions are listed before.
pub proof fn sessions_are_found_by_their_name(
    lines: Seq<Seq<char>>,
    name: Seq<char>,
    id: Seq<char>,
    at: int,
)
    requires
        0 <= at < lines.len(),
        !name.contains('\t'),
        lines[at] == name + seq!['\t'] + id,
        forall|i: int|
            0 <= i < at ==> !text::starts_with(#[trigger] lines[i], name + seq!['\t']),
    ensures
        listed_id(lines, name) == Some(id),
    decreases at,
{
    text::splitting_undoes_joining(name, id, '\t');
    if at > 0 {
        let rest = lines.skip(1);
        let first = lines[0];
        assert(!text::starts_with(first, name + seq!['\t']));
        if let Some((before, behind)) = text::split_once(first, '\t') {
            text::lemma_find(first, '\t');
            if before == name {
                let k = text::find(first, '\t');
                assert(first.take(k + 1) =~= name + seq!['\t']);
            }
        }
        assert forall|i: int| 0 <= i < at - 1 implies !text::starts_with(
            #[trigger] rest[i],
            name + seq!['\t'],
        ) by {
            assert(rest[i] == lines[i + 1]);
        }
        sessions_are_found_by_their_name(rest, name, id, at - 1);
    }
}

/// A session that no line starts with is not found.
pub proof fn other_sessions_are_not_found(lines: Seq<Seq<char>>, name: Seq<char>)
    requires
        forall|i: int|
            0 <= i < lines.len() ==> !text::starts_with(#[trigger] lines[i], name + seq!['\t']),
    ensures
        listed_id(lines, name) is None,
    decreases lines.len(),
{
    if lines.len() > 0 {
        let rest = lines.skip(1);
        let first = lines[0];
        assert(!text::starts_with(first, name + seq!['\t']));
        if let Some((before, behind)) = text::split_once(first, '\t') {
            text::lemma_find(first, '\t');
            if before == name {
                let k = text::find(first, '\t');
                assert(first.take(k + 1) =~= name + seq!['\t']);
            }
        }
        assert forall|i: int| 0 <= i < rest.len() implies !text::starts_with(
            #[trigger] rest[i],
            name + seq!['\t'],
        ) by {
            assert(rest[i] == lines[i + 1]);
        }
        other_sessions_are_not_found(rest, name);
    }
}

/// The first line that shows something is the window.
pub proof fn the_first_visible_line_counts(lines: Seq<Seq<char>>, at: int)
    requires
        0 <= at < lines.len(),
        forall|i: int| 0 <= i < at ==> text::is_blank(#[trigger] lines[i]),
        !text::is_blank(lines[at]),
    ensures
        first_visible(lines) == text::trim(lines[at]),
    decreases at,
{
    text::lemma_trim_blank(lines[0]);
    if at > 0 {
        let rest = lines.skip(1);
        assert(text::is_blank(lines[0]));
        assert forall|i: int| 0 <= i < at - 1 implies text::is_blank(#[trigger] rest[i]) by {
            assert(rest[i] == lines[i + 1]);
        }
        the_first_visible_line_counts(rest, at - 1);
    }
}

/// The parts of what tmux says of a pane.
proof fn lemma_three_fields(a: Seq<char>, b: Seq<char>, c: Seq<char>)
    requires
        !a.contains('|'),
        !b.contains('|'),
        !c.contains('|'),
    ensures
        text::split(a + seq!['|'] + (b + seq!['|'] + c), '|') == seq![a, b, c],
{
    text::splitting_undoes_joining(a, b + seq!['|'] + c, '|');
    text::splitting_undoes_joining(b, c, '|');
    text::splitting_undoes_joining(c, c, '|');
    assert(seq![a] + (seq![b] + seq![c]) =~= seq![a, b, c]);
}

/// A pane is addressed in its window of exactly its session if it is alive there; a dead
/// one is refused, and so is one of another session.
pub proof fn live_panes_are_addressed(
    name: Seq<char>,
    other: Seq<char>,
    window: Seq<char>,
    pane: Seq<char>,
)
    requires
        name.len() > 0,
        !name.contains('|'),
        !text::is_white_space(name[0]),
        other.len() > 0,
        !other.contains('|'),
        !text::is_white_space(other[0]),
        window.len() > 0,
        !window.contains('|'),
    ensures
        ({
            let says = |session: Seq<char>, end: char|
                session + seq!['|'] + (window + seq!['|'] + seq![end]) + seq!['\n'];
            &&& pane_address(says(name, '0'), name, pane) == Ok::<Seq<char>, Seq<char>>(
                "="@ + name + ":"@ + window + "."@ + pane,
            )
            &&& pane_address(says(name, '1'), name, pane) == Err::<Seq<char>, Seq<char>>(
                "tmux pane "@ + pane + " is dead"@,
            )
            &&& other != name ==> pane_address(says(other, '0'), name, pane) == Err::<
                Seq<char>,
                Seq<char>,
            >("tmux pane "@ + pane + " does not belong to exact session "@ + name)
        }),
{
    lemma_pane_says(name, window, '0');
    lemma_pane_says(name, window, '1');
    lemma_pane_says(other, window, '0');
    reveal_strlit("0");
    reveal_strlit("1");
    assert("0"@ =~= seq!['0']);
    assert("1"@ =~= seq!['1']);
    assert(seq!['1'][0] != seq!['0'][0]);
}

proof fn lemma_pane_says(session: Seq<char>, window: Seq<char>, end: char)
    requires
        session.len() > 0,
        !session.contains('|'),
        !text::is_white_space(session[0]),
        !window.contains('|'),
        end == '0' || end == '1',
    ensures
        text::split(
            text::trim(session + seq!['|'] + (window + seq!['|'] + seq![end]) + seq!['\n']),
            '|',
        ) == seq![session, window, seq![end]],
{
    let said = session + seq!['|'] + (window + seq!['|'] + seq![end]);
    let none = Seq::<char>::empty();
    assert(said[0] == session[0]);
    assert(said.last() == end);
    text::trimming_takes_the_white_space_around(none, said, seq!['\n']);
    assert(none + said + seq!['\n'] =~= said + seq!['\n']);
    assert(!seq![end].contains('|'));
    lemma_three_fields(session, window, seq![end]);
}

/// The pane of the agent is the first that is listed, if it belongs to exactly the session
/// and is alive; a dead one is refused.
pub proof fn the_first_pane_is_the_agent(
    pane: Seq<char>,
    name: Seq<char>,
    rest: Seq<char>,
)
    requires
        state::is_pane_id(pane),
        !pane.contains('|'),
        !pane.contains('\n'),
        !name.contains('|'),
        !name.contains('\n'),
    ensures
        first_pane(
            pane + seq!['|'] + (name + seq!['|'] + seq!['0']) + seq!['\n'] + rest,
            name,
        ) == Ok::<Seq<char>, Seq<char>>(pane),
        first_pane(
            pane + seq!['|'] + (name + seq!['|'] + seq!['1']) + seq!['\n'] + rest,
            name,
        ) == Err::<Seq<char>, Seq<char>>("tmux pane "@ + pane + " is dead"@),
        first_pane(Seq::empty(), name) == Err::<Seq<char>, Seq<char>>(
            "tmux session "@ + name + " has no agent pane"@,
        ),
{
    reveal_strlit("0");
    reveal_strlit("1");
    assert("0"@ =~= seq!['0']);
    assert("1"@ =~= seq!['1']);
    assert(seq!['1'][0] != seq!['0'][0]);
    lemma_listed_pane(pane, name, '0', rest);
    lemma_listed_pane(pane, name, '1', rest);
}

proof fn lemma_listed_pane(pane: Seq<char>, name: Seq<char>, end: char, rest: Seq<char>)
    requires
        !pane.contains('|'),
        !pane.contains('\n'),
        !name.contains('|'),
        !name.contains('\n'),
        end == '0' || end == '1',
    ensures
        ({
            let listing = pane + seq!['|'] + (name + seq!['|'] + seq![end]) + seq!['\n'] + rest;
            &&& text::lines(listing).len() > 0
            &&& text::split(text::lines(listing)[0], '|') == seq![pane, name, seq![end]]
        }),
{
    let line = pane + seq!['|'] + (name + seq!['|'] + seq![end]);
    assert forall|i: int| 0 <= i < line.len() implies line[i] != '\n' by {
        if i < pane.len() {
            assert(line[i] == pane[i]);
            assert(pane.contains(pane[i]));
        } else if pane.len() < i < pane.len() + 1 + name.len() {
            assert(line[i] == name[i - pane.len() - 1]);
            assert(name.contains(name[i - pane.len() - 1]));
        }
    }
    assert(line.last() == end);
    text::texts_are_read_line_by_line(line, rest);
    assert(!seq![end].contains('|'));
    lemma_three_fields(pane, name, seq![end]);
}

/// A pane is alive if tmux says so of the session that it should belong to; a pane of
/// another session is not that of the agent.
pub proof fn liveness_is_told_by_tmux(name: Seq<char>, other: Seq<char>, pane: Seq<char>)
    requires
        name.len() > 0,
        !name.contains('|'),
        !text::is_white_space(name[0]),
        other.len() > 0,
        !other.contains('|'),
        !text::is_white_space(other[0]),
        other != name,
    ensures
        ({
            let says = |session: Seq<char>, end: char|
                session + seq!['|'] + seq![end] + seq!['\n'];
            &&& liveness(says(name, '0'), name, pane) == Ok::<bool, Seq<char>>(true)
            &&& liveness(says(name, '1'), name, pane) == Ok::<bool, Seq<char>>(false)
            &&& liveness(says(other, '0'), name, pane) == Ok::<bool, Seq<char>>(false)
        }),
{
    reveal_strlit("0");
    reveal_strlit("1");
    assert("0"@ =~= seq!['0']);
    assert("1"@ =~= seq!['1']);
    assert(seq!['1'][0] != seq!['0'][0]);
    lemma_liveness_says(name, '0');
    lemma_liveness_says(name, '1');
    lemma_liveness_says(other, '0');
}

proof fn lemma_liveness_says(session: Seq<char>, end: char)
    requires
        session.len() > 0,
        !session.contains('|'),
        !text::is_white_space(session[0]),
        end == '0' || end == '1',
    ensures
        text::split(text::trim(session + seq!['|'] + seq![end] + seq!['\n']), '|') == seq![
            session,
            seq![end],
        ],
{
    let said = session + seq!['|'] + seq![end];
    let none = Seq::<char>::empty();
    assert(said[0] == session[0]);
    assert(said.last() == end);
    text::trimming_takes_the_white_space_around(none, said, seq!['\n']);
    assert(none + said + seq!['\n'] =~= said + seq!['\n']);
    assert(!seq![end].contains('|'));
    text::splitting_undoes_joining(session, seq![end], '|');
    text::splitting_undoes_joining(seq![end], seq![end], '|');
    assert(seq![session] + seq![seq![end]] =~= seq![session, seq![end]]);
}

} // verus!
