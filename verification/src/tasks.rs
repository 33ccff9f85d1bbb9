//! Things that take tmux more than one command: which command comes next, given
//! the answers so far, and what is to be undone when one of them fails.

use vstd::prelude::*;

use crate::bytes::copy_bytes;
use crate::bytes;
use crate::config;
use crate::config::{Agent, AgentModel};
use crate::error;
use crate::error::{message3, status_detail, ErrorModel, IoFailure, ToolError};
use crate::identity;
use crate::identity::session_key_tables;
use crate::process::{CommandOutput, OutputModel};
use crate::state;
use crate::state::valid_pane_id;
use crate::text;
use crate::text::trimmed;
use crate::tmux;
use crate::tmux::{
    check_pane_id, has_session, printed_text, session_id, session_window_target, CommandModel,
    TmuxCommand,
};

verus! {

/// What came of a command, or of an operation on a file.
#[derive(Debug)]
pub enum Answer {
    /// A program was run to its end.
    Ended(CommandOutput),
    /// An operation on a file was done.
    Done,
    /// The program could not be run, or the operation not be done.
    Failed(IoFailure),
}

#[verifier::ext_equal]
pub enum AnswerModel {
    Ended(OutputModel),
    Done,
    Failed { not_found: bool, detail: Seq<char> },
}

impl View for Answer {
    type V = AnswerModel;

    open spec fn view(&self) -> AnswerModel {
        match self {
            Answer::Ended(output) => AnswerModel::Ended(output@),
            Answer::Done => AnswerModel::Done,
            Answer::Failed(failure) => AnswerModel::Failed {
                not_found: failure.not_found,
                detail: failure.detail@,
            },
        }
    }
}

pub open spec fn answer_views(answers: Seq<Answer>) -> Seq<AnswerModel> {
    answers.map_values(|answer: Answer| answer@)
}

/// What comes next.
#[derive(Debug)]
pub enum Task {
    Ask(TmuxCommand),
    /// Run a command with the terminal as its own.
    Join(TmuxCommand),
    /// Stop the session, however that goes, and fail.
    Abandon(ToolError),
    Finish(Option<String>),
    Fail(ToolError),
}

#[verifier::ext_equal]
pub enum TaskModel {
    Ask(CommandModel),
    Join(CommandModel),
    Abandon(ErrorModel),
    Finish(Option<Seq<char>>),
    Fail(ErrorModel),
}

impl View for Task {
    type V = TaskModel;

    open spec fn view(&self) -> TaskModel {
        match self {
            Task::Ask(command) => TaskModel::Ask(command@),
            Task::Join(command) => TaskModel::Join(command@),
            Task::Abandon(e) => TaskModel::Abandon(e@),
            Task::Finish(value) => TaskModel::Finish(config::optional_text(*value)),
            Task::Fail(e) => TaskModel::Fail(e@),
        }
    }
}

/// What a command that must succeed has printed.
pub open spec fn checked(answer: AnswerModel) -> Result<Seq<char>, ErrorModel> {
    match answer {
        AnswerModel::Ended(output) => tmux::printed(output),
        AnswerModel::Done => Ok(Seq::empty()),
        AnswerModel::Failed { not_found, detail } => Err(ErrorModel::Io { not_found, detail }),
    }
}

fn copy_failure(failure: &IoFailure) -> (e: ToolError)
    ensures
        e@ == (ErrorModel::Io { not_found: failure.not_found, detail: failure.detail@ }),
{
    ToolError::Io(IoFailure { not_found: failure.not_found, detail: failure.detail.clone() })
}

pub fn check(answer: &Answer) -> (result: Result<String, ToolError>)
    ensures
        match result {
            Ok(text) => checked(answer@) == Ok::<Seq<char>, ErrorModel>(text@),
            Err(e) => checked(answer@) == Err::<Seq<char>, ErrorModel>(e@),
        },
{
    match answer {
        Answer::Ended(output) => printed_text(output),
        Answer::Done => {
            let none: String = String::new();
            assert(none@ =~= Seq::<char>::empty());
            Ok(none)
        },
        Answer::Failed(failure) => Err(copy_failure(failure)),
    }
}

/// The identifier of a session, given the list of sessions.
pub open spec fn identified(answer: AnswerModel, session: Seq<char>) -> Result<
    Seq<char>,
    ErrorModel,
> {
    match checked(answer) {
        Ok(listing) => match tmux::listed_id(text::lines(listing), session) {
            Some(id) => Ok(id),
            None => Err(
                ErrorModel::Message("tmux session "@ + session + " no longer exists"@),
            ),
        },
        Err(e) => Err(e),
    }
}

pub fn identify(answer: &Answer, session: &str) -> (result: Result<String, ToolError>)
    ensures
        match result {
            Ok(id) => identified(answer@, session@) == Ok::<Seq<char>, ErrorModel>(id@),
            Err(e) => identified(answer@, session@) == Err::<Seq<char>, ErrorModel>(e@),
        },
{
    match check(answer) {
        Ok(listing) => session_id(listing.as_str(), session),
        Err(e) => Err(e),
    }
}

/// Whether a session exists.
pub open spec fn existence(answer: AnswerModel) -> Result<bool, ErrorModel> {
    match answer {
        AnswerModel::Ended(output) => if output.success {
            Ok(true)
        } else if output.code == Some(1i32) {
            Ok(false)
        } else {
            Err(tmux::tmux_failure(output))
        },
        AnswerModel::Done => Ok(true),
        AnswerModel::Failed { not_found, detail } => Err(ErrorModel::Io { not_found, detail }),
    }
}

/// Whether a session exists, given how asking for it went.
pub fn session_exists(answer: &Answer) -> (result: Result<bool, ToolError>)
    ensures
        match result {
            Ok(found) => existence(answer@) == Ok::<bool, ErrorModel>(found),
            Err(e) => existence(answer@) == Err::<bool, ErrorModel>(e@),
        },
{
    match answer {
        Answer::Ended(output) => has_session(output),
        Answer::Done => Ok(true),
        Answer::Failed(failure) => Err(copy_failure(failure)),
    }
}

/// The target of the first window of a session.
pub open spec fn windowed(answer: AnswerModel, name: Seq<char>) -> Result<Seq<char>, ErrorModel> {
    match checked(answer) {
        Ok(listing) => {
            let index = tmux::first_visible(text::lines(listing));
            if text::is_number(index) {
                Ok(tmux::window_target(name, index))
            } else {
                Err(
                    ErrorModel::Message(
                        "tmux session "@ + name + " returned an invalid window index"@,
                    ),
                )
            }
        },
        Err(e) => Err(e),
    }
}

/// Starting a session: it is created without a status line, which it gets only
/// when it is configured. A session that is not as it should be is stopped.
pub open spec fn create_task(
    name: Seq<char>,
    cwd: Seq<u8>,
    agent: AgentModel,
    answers: Seq<AnswerModel>,
) -> TaskModel {
    if answers.len() == 0 {
        TaskModel::Ask(CommandModel::NewSession { session: name, cwd, agent })
    } else {
        match checked(answers[0]) {
            Err(e) => TaskModel::Fail(e),
            Ok(output) => {
                let pane = text::trim(output);
                if !state::is_pane_id(pane) {
                    TaskModel::Abandon(
                        ErrorModel::Message(
                            "tmux session "@ + name + " returned an invalid pane id"@,
                        ),
                    )
                } else if answers.len() == 1 {
                    TaskModel::Ask(CommandModel::ListWindows { session: name })
                } else {
                    match windowed(answers[1], name) {
                        Err(e) => TaskModel::Abandon(e),
                        Ok(target) => if answers.len() == 2 {
                            TaskModel::Ask(
                                CommandModel::SetOption {
                                    target,
                                    option: "status"@,
                                    value: "off"@,
                                },
                            )
                        } else {
                            match checked(answers[2]) {
                                Err(e) => TaskModel::Abandon(e),
                                Ok(_) => TaskModel::Finish(Some(pane)),
                            }
                        },
                    }
                }
            },
        }
    }
}

pub fn create_session_with_pane(name: &str, cwd: &[u8], agent: &Agent, answers: &Vec<Answer>) -> (task:
    Task)
    ensures
        task@ == create_task(name@, cwd@, agent@, answer_views(answers@)),
{
    let ghost all = answer_views(answers@);
    if answers.len() == 0 {
        return Task::Ask(
            TmuxCommand::NewSession {
                session: name.to_owned(),
                cwd: copy_bytes(cwd),
                agent: agent.clone(),
            },
        );
    }
    assert(all[0] == answers@[0]@);
    let pane: String = match check(&answers[0]) {
        Ok(output) => trimmed(output.as_str()),
        Err(e) => {
            return Task::Fail(e);
        },
    };
    if !valid_pane_id(pane.as_str()) {
        return Task::Abandon(message3("tmux session ", name, " returned an invalid pane id"));
    }
    if answers.len() == 1 {
        return Task::Ask(TmuxCommand::ListWindows { session: name.to_owned() });
    }
    assert(all[1] == answers@[1]@);
    let listing: String = match check(&answers[1]) {
        Ok(listing) => listing,
        Err(e) => {
            return Task::Abandon(e);
        },
    };
    let target: String = match session_window_target(listing.as_str(), name) {
        Ok(target) => target,
        Err(e) => {
            return Task::Abandon(e);
        },
    };
    if answers.len() == 2 {
        return Task::Ask(
            TmuxCommand::SetOption {
                target,
                option: "status".to_owned(),
                value: "off".to_owned(),
            },
        );
    }
    assert(all[2] == answers@[2]@);
    match check(&answers[2]) {
        Ok(_) => Task::Finish(Some(pane)),
        Err(e) => Task::Abandon(e),
    }
}

/// Emptying both key tables of a session: the next one, or how it went.
#[verifier::ext_equal]
pub enum ClearModel {
    Next(Seq<char>),
    Cleared,
    Failed(ErrorModel),
}

pub open spec fn clearing(session: Seq<char>, answers: Seq<AnswerModel>) -> ClearModel {
    if answers.len() == 0 {
        ClearModel::Next(identity::key_tables(session).0)
    } else {
        match checked(answers[0]) {
            Err(e) => ClearModel::Failed(e),
            Ok(_) => if answers.len() == 1 {
                ClearModel::Next(identity::key_tables(session).1)
            } else {
                match checked(answers[1]) {
                    Err(e) => ClearModel::Failed(e),
                    Ok(_) => ClearModel::Cleared,
                }
            },
        }
    }
}

#[derive(Debug)]
pub enum Clear {
    Next(String),
    Cleared,
    Failed(ToolError),
}

impl View for Clear {
    type V = ClearModel;

    open spec fn view(&self) -> ClearModel {
        match self {
            Clear::Next(table) => ClearModel::Next(table@),
            Clear::Cleared => ClearModel::Cleared,
            Clear::Failed(e) => ClearModel::Failed(e@),
        }
    }
}

fn clear(session: &str, answers: &Vec<Answer>, from: usize) -> (out: Clear)
    requires
        from <= answers@.len(),
    ensures
        out@ == clearing(session@, answer_views(answers@).skip(from as int)),
{
    let ghost rest = answer_views(answers@).skip(from as int);
    let (first, second): (String, String) = session_key_tables(session);
    if answers.len() == from {
        return Clear::Next(first);
    }
    assert(rest[0] == answers@[from as int]@);
    if let Err(e) = check(&answers[from]) {
        return Clear::Failed(e);
    }
    if answers.len() - from == 1 {
        return Clear::Next(second);
    }
    assert(rest[1] == answers@[from + 1]@);
    match check(&answers[from + 1]) {
        Ok(_) => Clear::Cleared,
        Err(e) => Clear::Failed(e),
    }
}

/// Emptying the key tables of a session, and nothing else.
pub open spec fn clear_task(session: Seq<char>, answers: Seq<AnswerModel>) -> TaskModel {
    match clearing(session, answers) {
        ClearModel::Next(table) => TaskModel::Ask(CommandModel::ClearKeys { table }),
        ClearModel::Cleared => TaskModel::Finish(None),
        ClearModel::Failed(e) => TaskModel::Fail(e),
    }
}

pub fn clear_key_tables(session: &str, answers: &Vec<Answer>) -> (task: Task)
    ensures
        task@ == clear_task(session@, answer_views(answers@)),
{
    assert(answer_views(answers@).skip(0) =~= answer_views(answers@));
    match clear(session, answers, 0) {
        Clear::Next(table) => Task::Ask(TmuxCommand::ClearKeys { table }),
        Clear::Cleared => Task::Finish(None),
        Clear::Failed(e) => Task::Fail(e),
    }
}

/// Stopping a session. Its key tables are emptied even if the kill command fails,
/// and also if there was no such session to begin with.
pub open spec fn kill_task(name: Seq<char>, answers: Seq<AnswerModel>) -> TaskModel {
    if answers.len() == 0 {
        TaskModel::Ask(CommandModel::HasSession { session: name })
    } else {
        match existence(answers[0]) {
            Err(e) => TaskModel::Fail(e),
            Ok(false) => clear_task(name, answers.skip(1)),
            Ok(true) => if answers.len() == 1 {
                TaskModel::Ask(CommandModel::ListSessions)
            } else {
                match identified(answers[1], name) {
                    Err(e) => TaskModel::Fail(e),
                    Ok(id) => if answers.len() == 2 {
                        TaskModel::Ask(CommandModel::KillSession { id })
                    } else {
                        killed(checked(answers[2]), clearing(name, answers.skip(3)))
                    },
                }
            },
        }
    }
}

pub open spec fn killed(kill: Result<Seq<char>, ErrorModel>, cleanup: ClearModel) -> TaskModel {
    match cleanup {
        ClearModel::Next(table) => TaskModel::Ask(CommandModel::ClearKeys { table }),
        ClearModel::Cleared => match kill {
            Ok(_) => TaskModel::Finish(None),
            Err(e) => TaskModel::Fail(e),
        },
        ClearModel::Failed(cleanup_error) => match kill {
            Ok(_) => TaskModel::Fail(cleanup_error),
            Err(e) => TaskModel::Fail(
                ErrorModel::Message(
                    error::error_text(e) + "; failed to clean up session key tables: "@
                        + error::error_text(cleanup_error),
                ),
            ),
        },
    }
}

pub fn kill_session(name: &str, answers: &Vec<Answer>) -> (task: Task)
    ensures
        task@ == kill_task(name@, answer_views(answers@)),
{
    let ghost all = answer_views(answers@);
    if answers.len() == 0 {
        return Task::Ask(TmuxCommand::HasSession { session: name.to_owned() });
    }
    assert(all[0] == answers@[0]@);
    match session_exists(&answers[0]) {
        Err(e) => {
            return Task::Fail(e);
        },
        Ok(false) => {
            return match clear(name, answers, 1) {
                Clear::Next(table) => Task::Ask(TmuxCommand::ClearKeys { table }),
                Clear::Cleared => Task::Finish(None),
                Clear::Failed(e) => Task::Fail(e),
            };
        },
        Ok(true) => {},
    }
    if answers.len() == 1 {
        return Task::Ask(TmuxCommand::ListSessions);
    }
    assert(all[1] == answers@[1]@);
    let id: String = match identify(&answers[1], name) {
        Ok(id) => id,
        Err(e) => {
            return Task::Fail(e);
        },
    };
    if answers.len() == 2 {
        return Task::Ask(TmuxCommand::KillSession { id });
    }
    assert(all[2] == answers@[2]@);
    match (check(&answers[2]), clear(name, answers, 3)) {
        (_, Clear::Next(table)) => Task::Ask(TmuxCommand::ClearKeys { table }),
        (Ok(_), Clear::Cleared) => Task::Finish(None),
        (Err(e), Clear::Cleared) => Task::Fail(e),
        (Ok(_), Clear::Failed(e)) => Task::Fail(e),
        (Err(e), Clear::Failed(cleanup)) => Task::Fail(
            message3(
                e.text().as_str(),
                "; failed to clean up session key tables: ",
                cleanup.text().as_str(),
            ),
        ),
    }
}

/// Attaching to a session. An attachment that ends badly is an error only if the
/// session is still there.
pub open spec fn attach_task(name: Seq<char>, answers: Seq<AnswerModel>) -> TaskModel {
    if answers.len() == 0 {
        TaskModel::Ask(CommandModel::ListSessions)
    } else {
        match identified(answers[0], name) {
            Err(e) => TaskModel::Fail(e),
            Ok(id) => if answers.len() == 1 {
                TaskModel::Join(CommandModel::AttachSession { id })
            } else {
                match answers[1] {
                    AnswerModel::Failed { not_found, detail } => TaskModel::Fail(
                        ErrorModel::Io { not_found, detail },
                    ),
                    AnswerModel::Done => TaskModel::Finish(None),
                    AnswerModel::Ended(output) => if output.success {
                        TaskModel::Finish(None)
                    } else if answers.len() == 2 {
                        TaskModel::Ask(CommandModel::HasSession { session: name })
                    } else {
                        match existence(answers[2]) {
                            Err(e) => TaskModel::Fail(e),
                            Ok(false) => TaskModel::Finish(None),
                            Ok(true) => TaskModel::Fail(
                                ErrorModel::Command {
                                    program: "tmux"@,
                                    detail: "exited with status "@ + output.status,
                                },
                            ),
                        }
                    },
                }
            },
        }
    }
}

pub fn attach(name: &str, answers: &Vec<Answer>) -> (task: Task)
    ensures
        task@ == attach_task(name@, answer_views(answers@)),
{
    let ghost all = answer_views(answers@);
    if answers.len() == 0 {
        return Task::Ask(TmuxCommand::ListSessions);
    }
    assert(all[0] == answers@[0]@);
    let id: String = match identify(&answers[0], name) {
        Ok(id) => id,
        Err(e) => {
            return Task::Fail(e);
        },
    };
    if answers.len() == 1 {
        return Task::Join(TmuxCommand::AttachSession { id });
    }
    assert(all[1] == answers@[1]@);
    match &answers[1] {
        Answer::Failed(failure) => Task::Fail(copy_failure(failure)),
        Answer::Done => Task::Finish(None),
        Answer::Ended(output) => {
            if output.success {
                return Task::Finish(None);
            }
            if answers.len() == 2 {
                return Task::Ask(TmuxCommand::HasSession { session: name.to_owned() });
            }
            assert(all[2] == answers@[2]@);
            match session_exists(&answers[2]) {
                Err(e) => Task::Fail(e),
                Ok(false) => Task::Finish(None),
                Ok(true) => Task::Fail(
                    ToolError::Command {
                        program: "tmux".to_owned(),
                        detail: status_detail(output.status.as_str()),
                    },
                ),
            }
        },
    }
}

/// What an option belongs to.
#[derive(Clone, Copy, Debug, PartialEq, Eq, Structural)]
pub enum Scope {
    Session,
    Window,
    Server,
}

#[derive(Debug)]
pub struct OptionSetting {
    pub scope: Scope,
    pub option: String,
    pub value: String,
}

#[verifier::ext_equal]
pub struct SettingModel {
    pub scope: Scope,
    pub option: Seq<char>,
    pub value: Seq<char>,
}

impl View for OptionSetting {
    type V = SettingModel;

    open spec fn view(&self) -> SettingModel {
        SettingModel { scope: self.scope, option: self.option@, value: self.value@ }
    }
}

pub open spec fn setting_command(id: Seq<char>, setting: SettingModel) -> CommandModel {
    match setting.scope {
        Scope::Session => CommandModel::SetOption {
            target: id,
            option: setting.option,
            value: setting.value,
        },
        Scope::Window => CommandModel::SetWindowOption {
            target: id,
            option: setting.option,
            value: setting.value,
        },
        Scope::Server => CommandModel::SetServerOption {
            option: setting.option,
            value: setting.value,
        },
    }
}

/// Setting an option of a session, which is addressed by its identifier.
pub open spec fn set_task(
    session: Seq<char>,
    setting: SettingModel,
    answers: Seq<AnswerModel>,
) -> TaskModel {
    if answers.len() == 0 {
        TaskModel::Ask(CommandModel::ListSessions)
    } else {
        match identified(answers[0], session) {
            Err(e) => TaskModel::Fail(e),
            Ok(id) => if answers.len() == 1 {
                TaskModel::Ask(setting_command(id, setting))
            } else {
                match checked(answers[1]) {
                    Err(e) => TaskModel::Fail(e),
                    Ok(_) => TaskModel::Finish(None),
                }
            },
        }
    }
}

pub fn set_option(session: &str, setting: &OptionSetting, answers: &Vec<Answer>) -> (task: Task)
    ensures
        task@ == set_task(session@, setting@, answer_views(answers@)),
{
    let ghost all = answer_views(answers@);
    if answers.len() == 0 {
        return Task::Ask(TmuxCommand::ListSessions);
    }
    assert(all[0] == answers@[0]@);
    let id: String = match identify(&answers[0], session) {
        Ok(id) => id,
        Err(e) => {
            return Task::Fail(e);
        },
    };
    if answers.len() == 1 {
        let option: String = setting.option.clone();
        let value: String = setting.value.clone();
        return Task::Ask(
            match setting.scope {
                Scope::Session => TmuxCommand::SetOption { target: id, option, value },
                Scope::Window => TmuxCommand::SetWindowOption { target: id, option, value },
                Scope::Server => TmuxCommand::SetServerOption { option, value },
            },
        );
    }
    assert(all[1] == answers@[1]@);
    match check(&answers[1]) {
        Ok(_) => Task::Finish(None),
        Err(e) => Task::Fail(e),
    }
}

/// Reading an option of a session, which is addressed by its identifier.
pub open spec fn show_task(
    session: Seq<char>,
    option: Seq<char>,
    answers: Seq<AnswerModel>,
) -> TaskModel {
    if answers.len() == 0 {
        TaskModel::Ask(CommandModel::ListSessions)
    } else {
        match identified(answers[0], session) {
            Err(e) => TaskModel::Fail(e),
            Ok(id) => if answers.len() == 1 {
                TaskModel::Ask(CommandModel::ShowOption { target: id, option })
            } else {
                match checked(answers[1]) {
                    Err(e) => TaskModel::Fail(e),
                    Ok(output) => TaskModel::Finish(Some(text::trim(output))),
                }
            },
        }
    }
}

/// Reads an option.
pub fn show_option(session: &str, option: &str, answers: &Vec<Answer>) -> (task: Task)
    ensures
        task@ == show_task(session@, option@, answer_views(answers@)),
{
    let ghost all = answer_views(answers@);
    if answers.len() == 0 {
        return Task::Ask(TmuxCommand::ListSessions);
    }
    assert(all[0] == answers@[0]@);
    let id: String = match identify(&answers[0], session) {
        Ok(id) => id,
        Err(e) => {
            return Task::Fail(e);
        },
    };
    if answers.len() == 1 {
        return Task::Ask(TmuxCommand::ShowOption { target: id, option: option.to_owned() });
    }
    assert(all[1] == answers@[1]@);
    match check(&answers[1]) {
        Ok(output) => Task::Finish(Some(trimmed(output.as_str()))),
        Err(e) => Task::Fail(e),
    }
}

/// Finding the target to deliver a prompt to: the pane that is known, or else
/// the one that is listed for the agent. It has to be alive.
pub open spec fn address_task(
    name: Seq<char>,
    pane: Option<Seq<char>>,
    answers: Seq<AnswerModel>,
) -> TaskModel {
    match pane {
        Some(pane) => describe_task(name, pane, answers),
        None => if answers.len() == 0 {
            TaskModel::Ask(CommandModel::ListPanes { session: name })
        } else {
            match checked(answers[0]) {
                Err(e) => TaskModel::Fail(e),
                Ok(listing) => match tmux::first_pane(listing, name) {
                    Err(problem) => TaskModel::Fail(ErrorModel::Message(problem)),
                    Ok(pane) => describe_task(name, pane, answers.skip(1)),
                },
            }
        },
    }
}

pub open spec fn describe_task(
    name: Seq<char>,
    pane: Seq<char>,
    answers: Seq<AnswerModel>,
) -> TaskModel {
    if !state::is_pane_id(pane) {
        TaskModel::Fail(ErrorModel::Message("tmux pane target is invalid: "@ + pane))
    } else if answers.len() == 0 {
        TaskModel::Ask(CommandModel::DescribePane { pane })
    } else {
        match checked(answers[0]) {
            Err(e) => TaskModel::Fail(e),
            Ok(detail) => match tmux::pane_address(detail, name, pane) {
                Err(problem) => TaskModel::Fail(ErrorModel::Message(problem)),
                Ok(target) => TaskModel::Finish(Some(target)),
            },
        }
    }
}

fn describe(name: &str, pane: &str, answers: &Vec<Answer>, from: usize) -> (task: Task)
    requires
        from <= answers@.len(),
    ensures
        task@ == describe_task(name@, pane@, answer_views(answers@).skip(from as int)),
{
    if let Err(e) = check_pane_id(pane) {
        return Task::Fail(e);
    }
    if answers.len() == from {
        return Task::Ask(TmuxCommand::DescribePane { pane: pane.to_owned() });
    }
    assert(answer_views(answers@).skip(from as int)[0] == answers@[from as int]@);
    match check(&answers[from]) {
        Err(e) => Task::Fail(e),
        Ok(detail) => match tmux::pane_target(detail.as_str(), name, pane) {
            Ok(target) => Task::Finish(Some(target)),
            Err(e) => Task::Fail(e),
        },
    }
}

pub fn prompt_address(name: &str, pane: &Option<String>, answers: &Vec<Answer>) -> (task: Task)
    ensures
        task@ == address_task(name@, config::optional_text(*pane), answer_views(answers@)),
{
    let ghost all = answer_views(answers@);
    assert(all.skip(0) =~= all);
    match pane {
        Some(pane) => describe(name, pane.as_str(), answers, 0),
        None => {
            if answers.len() == 0 {
                return Task::Ask(TmuxCommand::ListPanes { session: name.to_owned() });
            }
            assert(all[0] == answers@[0]@);
            let listing: String = match check(&answers[0]) {
                Ok(listing) => listing,
                Err(e) => {
                    return Task::Fail(e);
                },
            };
            match tmux::agent_pane(listing.as_str(), name) {
                Ok(pane) => describe(name, pane.as_str(), answers, 1),
                Err(e) => Task::Fail(e),
            }
        },
    }
}

/// A session that was created but is not as it should be is never kept: the only
/// end without it being stopped is success, or that it was not created.
pub proof fn broken_sessions_are_abandoned(
    name: Seq<char>,
    cwd: Seq<u8>,
    agent: AgentModel,
    answers: Seq<AnswerModel>,
)
    requires
        answers.len() > 0,
        checked(answers[0]) is Ok,
    ensures
        !(create_task(name, cwd, agent, answers) is Fail),
        create_task(name, cwd, agent, answers) matches TaskModel::Finish(pane) ==> pane matches Some(
            id,
        ) && state::is_pane_id(id),
{
}

/// A prompt goes only to a live pane of exactly the session it is meant for: tmux
/// has last said so of the pane, and the pane is the one that was asked for.
pub proof fn prompts_go_to_live_panes(
    name: Seq<char>,
    pane: Option<Seq<char>>,
    answers: Seq<AnswerModel>,
)
    requires
        address_task(name, pane, answers) is Finish,
    ensures
        ({
            let at: int = if pane is Some {
                0
            } else {
                1
            };
            let id = match pane {
                Some(id) => id,
                None => tmux::first_pane(checked(answers[0])->Ok_0, name)->Ok_0,
            };
            let fields = text::split(text::trim(checked(answers[at])->Ok_0), '|');
            &&& answers.len() > at
            &&& checked(answers[at]) is Ok
            &&& fields.len() == 3
            &&& fields[0] == name
            &&& fields[2] == "0"@
            &&& state::is_pane_id(id)
            &&& address_task(name, pane, answers) == TaskModel::Finish(
                Some(identity::exact_target(name) + ":"@ + fields[1] + "."@ + id),
            )
        }),
{
    reveal_strlit("0");
    reveal_strlit("1");
    assert("0"@ != "1"@) by {
        assert("0"@[0] != "1"@[0]);
    }
}

/// What came of a command: what it has printed, or why it failed.
pub proof fn answers_are_checked(output: OutputModel, not_found: bool, detail: Seq<char>)
    ensures
        output.success ==> checked(AnswerModel::Ended(output)) == Ok::<Seq<char>, ErrorModel>(
            bytes::utf8_lossy(output.stdout),
        ),
        !output.success ==> checked(AnswerModel::Ended(output)) == Err::<Seq<char>, ErrorModel>(
            tmux::tmux_failure(output),
        ),
        checked(AnswerModel::Done) == Ok::<Seq<char>, ErrorModel>(Seq::empty()),
        checked(AnswerModel::Failed { not_found, detail }) == Err::<Seq<char>, ErrorModel>(
            ErrorModel::Io { not_found, detail },
        ),
        existence(AnswerModel::Ended(output)) == (if output.success {
            Ok::<bool, ErrorModel>(true)
        } else if output.code == Some(1i32) {
            Ok::<bool, ErrorModel>(false)
        } else {
            Err::<bool, ErrorModel>(tmux::tmux_failure(output))
        }),
        existence(AnswerModel::Failed { not_found, detail }) == Err::<bool, ErrorModel>(
            ErrorModel::Io { not_found, detail },
        ),
{
}

/// A session that is listed by its name is known by the identifier behind it, and one
/// that is not listed no longer exists.
pub proof fn listed_sessions_are_identified(
    answer: AnswerModel,
    listing: Seq<char>,
    session: Seq<char>,
    id: Seq<char>,
)
    requires
        checked(answer) == Ok::<Seq<char>, ErrorModel>(listing),
    ensures
        tmux::listed_id(text::lines(listing), session) == Some(id) ==> identified(answer, session)
            == Ok::<Seq<char>, ErrorModel>(id),
        tmux::listed_id(text::lines(listing), session) is None ==> identified(answer, session)
            == Err::<Seq<char>, ErrorModel>(
            ErrorModel::Message("tmux session "@ + session + " no longer exists"@),
        ),
{
}

/// The first window of a session is named by its number behind the exact session.
pub proof fn windows_are_named_by_their_number(
    answer: AnswerModel,
    listing: Seq<char>,
    name: Seq<char>,
)
    requires
        checked(answer) == Ok::<Seq<char>, ErrorModel>(listing),
        text::is_number(tmux::first_visible(text::lines(listing))),
    ensures
        windowed(answer, name) == Ok::<Seq<char>, ErrorModel>(
            "="@ + name + ":"@ + tmux::first_visible(text::lines(listing)),
        ),
{
}

/// A session is created with its agent in its directory. If tmux names its pane and its
/// window, its status line is turned off, and its pane is what comes of it.
pub proof fn sessions_are_created(
    name: Seq<char>,
    cwd: Seq<u8>,
    agent: AgentModel,
    answers: Seq<AnswerModel>,
    output: Seq<char>,
    target: Seq<char>,
)
    requires
        answers.len() <= 3,
        answers.len() > 0 ==> checked(answers[0]) == Ok::<Seq<char>, ErrorModel>(output)
            && state::is_pane_id(text::trim(output)),
        answers.len() > 1 ==> windowed(answers[1], name) == Ok::<Seq<char>, ErrorModel>(target),
        answers.len() > 2 ==> checked(answers[2]) is Ok,
    ensures
        create_task(name, cwd, agent, answers) == (if answers.len() == 0 {
            TaskModel::Ask(CommandModel::NewSession { session: name, cwd, agent })
        } else if answers.len() == 1 {
            TaskModel::Ask(CommandModel::ListWindows { session: name })
        } else if answers.len() == 2 {
            TaskModel::Ask(
                CommandModel::SetOption { target, option: "status"@, value: "off"@ },
            )
        } else {
            TaskModel::Finish(Some(text::trim(output)))
        }),
{
}

/// A session that could not be created is no session; one that was created but is not
/// as it should be is stopped, and the reason is told.
pub proof fn failed_creations_are_told(
    name: Seq<char>,
    cwd: Seq<u8>,
    agent: AgentModel,
    answers: Seq<AnswerModel>,
)
    requires
        answers.len() > 0,
    ensures
        checked(answers[0]) matches Err(e) ==> create_task(name, cwd, agent, answers)
            == TaskModel::Fail(e),
        checked(answers[0]) matches Ok(output) ==> !state::is_pane_id(text::trim(output)) ==> create_task(
            name,
            cwd,
            agent,
            answers,
        ) == TaskModel::Abandon(
            ErrorModel::Message("tmux session "@ + name + " returned an invalid pane id"@),
        ),
        checked(answers[0]) matches Ok(output) ==> state::is_pane_id(text::trim(output))
            && answers.len() > 1 ==> (windowed(answers[1], name) matches Err(e) ==> create_task(
            name,
            cwd,
            agent,
            answers,
        ) == TaskModel::Abandon(e)),
        checked(answers[0]) matches Ok(output) ==> state::is_pane_id(text::trim(output))
            && answers.len() > 2 && windowed(answers[1], name) is Ok ==> (checked(
            answers[2],
        ) matches Err(e) ==> create_task(name, cwd, agent, answers) == TaskModel::Abandon(e)),
{
}

/// Both key tables of a session are emptied, one after the other.
pub proof fn key_tables_are_emptied(session: Seq<char>, answers: Seq<AnswerModel>)
    requires
        answers.len() <= 2,
        forall|i: int| 0 <= i < answers.len() ==> checked(#[trigger] answers[i]) is Ok,
    ensures
        clear_task(session, answers) == (if answers.len() == 0 {
            TaskModel::Ask(
                CommandModel::ClearKeys { table: identity::key_tables(session).0 },
            )
        } else if answers.len() == 1 {
            TaskModel::Ask(
                CommandModel::ClearKeys { table: identity::key_tables(session).1 },
            )
        } else {
            TaskModel::Finish(None)
        }),
{
    assert(answers.len() > 0 ==> checked(answers[0]) is Ok);
    assert(answers.len() > 1 ==> checked(answers[1]) is Ok);
}

/// A session that is there is stopped by its identifier, and then its key tables are
/// emptied.
pub proof fn sessions_are_stopped(name: Seq<char>, answers: Seq<AnswerModel>, id: Seq<char>)
    requires
        answers.len() <= 5,
        answers.len() > 0 ==> existence(answers[0]) == Ok::<bool, ErrorModel>(true),
        answers.len() > 1 ==> identified(answers[1], name) == Ok::<Seq<char>, ErrorModel>(id),
        answers.len() > 2 ==> checked(answers[2]) is Ok,
        answers.len() > 3 ==> checked(answers[3]) is Ok,
        answers.len() > 4 ==> checked(answers[4]) is Ok,
    ensures
        kill_task(name, answers) == (if answers.len() == 0 {
            TaskModel::Ask(CommandModel::HasSession { session: name })
        } else if answers.len() == 1 {
            TaskModel::Ask(CommandModel::ListSessions)
        } else if answers.len() == 2 {
            TaskModel::Ask(CommandModel::KillSession { id })
        } else if answers.len() == 3 {
            TaskModel::Ask(CommandModel::ClearKeys { table: identity::key_tables(name).0 })
        } else if answers.len() == 4 {
            TaskModel::Ask(CommandModel::ClearKeys { table: identity::key_tables(name).1 })
        } else {
            TaskModel::Finish(None)
        }),
{
    if answers.len() > 3 {
        assert(answers.skip(3)[0] == answers[3]);
    }
    if answers.len() > 4 {
        assert(answers.skip(3)[1] == answers[4]);
    }
}

/// Of a session that is not there, the key tables are emptied all the same.
pub proof fn absent_sessions_lose_their_key_tables(name: Seq<char>, answers: Seq<AnswerModel>)
    requires
        answers.len() > 0,
        existence(answers[0]) == Ok::<bool, ErrorModel>(false),
    ensures
        kill_task(name, answers) == clear_task(name, answers.skip(1)),
{
}

/// A session that could not be stopped is reported once its key tables were emptied,
/// and so is what kept them from being emptied.
pub proof fn failed_stops_are_told(
    name: Seq<char>,
    answers: Seq<AnswerModel>,
    e: ErrorModel,
)
    requires
        answers.len() >= 4,
        existence(answers[0]) == Ok::<bool, ErrorModel>(true),
        identified(answers[1], name) is Ok,
        checked(answers[2]) == Err::<Seq<char>, ErrorModel>(e),
    ensures
        checked(answers[3]) matches Err(other) ==> kill_task(name, answers) == TaskModel::Fail(
            ErrorModel::Message(
                error::error_text(e) + "; failed to clean up session key tables: "@
                    + error::error_text(other),
            ),
        ),
        checked(answers[3]) is Ok && answers.len() == 4 ==> kill_task(name, answers)
            == TaskModel::Ask(CommandModel::ClearKeys { table: identity::key_tables(name).1 }),
        checked(answers[3]) is Ok && answers.len() > 4 && checked(answers[4]) is Ok ==> kill_task(
            name,
            answers,
        ) == TaskModel::Fail(e),
{
    assert(answers.skip(3)[0] == answers[3]);
    if answers.len() > 4 {
        assert(answers.skip(3)[1] == answers[4]);
    }
}

/// The terminal is attached to the session by its identifier. An attachment that ends
/// well, or badly because the session has ended, is a good end; otherwise its status is
/// told.
pub proof fn terminals_are_attached(
    name: Seq<char>,
    answers: Seq<AnswerModel>,
    id: Seq<char>,
    output: OutputModel,
)
    requires
        answers.len() > 0 ==> identified(answers[0], name) == Ok::<Seq<char>, ErrorModel>(id),
        answers.len() > 1 ==> answers[1] == AnswerModel::Ended(output),
        answers.len() > 2 ==> existence(answers[2]) is Ok,
    ensures
        attach_task(name, answers) == (if answers.len() == 0 {
            TaskModel::Ask(CommandModel::ListSessions)
        } else if answers.len() == 1 {
            TaskModel::Join(CommandModel::AttachSession { id })
        } else if output.success {
            TaskModel::Finish(None)
        } else if answers.len() == 2 {
            TaskModel::Ask(CommandModel::HasSession { session: name })
        } else if existence(answers[2]) == Ok::<bool, ErrorModel>(false) {
            TaskModel::Finish(None)
        } else {
            TaskModel::Fail(
                ErrorModel::Command {
                    program: "tmux"@,
                    detail: "exited with status "@ + output.status,
                },
            )
        }),
{
}

/// An option is set for the session by its identifier, or for its windows, or for the
/// whole server, as the setting says.
pub proof fn options_are_set(
    session: Seq<char>,
    setting: SettingModel,
    answers: Seq<AnswerModel>,
    id: Seq<char>,
)
    requires
        answers.len() > 0 ==> identified(answers[0], session) == Ok::<Seq<char>, ErrorModel>(id),
        answers.len() > 1 ==> checked(answers[1]) is Ok,
    ensures
        set_task(session, setting, answers) == (if answers.len() == 0 {
            TaskModel::Ask(CommandModel::ListSessions)
        } else if answers.len() == 1 {
            TaskModel::Ask(
                match setting.scope {
                    Scope::Session => CommandModel::SetOption {
                        target: id,
                        option: setting.option,
                        value: setting.value,
                    },
                    Scope::Window => CommandModel::SetWindowOption {
                        target: id,
                        option: setting.option,
                        value: setting.value,
                    },
                    Scope::Server => CommandModel::SetServerOption {
                        option: setting.option,
                        value: setting.value,
                    },
                },
            )
        } else {
            TaskModel::Finish(None)
        }),
{
}

/// An option is read from the session by its identifier, without the white space around
/// it.
pub proof fn options_are_shown(
    session: Seq<char>,
    option: Seq<char>,
    answers: Seq<AnswerModel>,
    id: Seq<char>,
    output: Seq<char>,
)
    requires
        answers.len() > 0 ==> identified(answers[0], session) == Ok::<Seq<char>, ErrorModel>(id),
        answers.len() > 1 ==> checked(answers[1]) == Ok::<Seq<char>, ErrorModel>(output),
    ensures
        show_task(session, option, answers) == (if answers.len() == 0 {
            TaskModel::Ask(CommandModel::ListSessions)
        } else if answers.len() == 1 {
            TaskModel::Ask(CommandModel::ShowOption { target: id, option })
        } else {
            TaskModel::Finish(Some(text::trim(output)))
        }),
{
}

/// The target of a prompt is found by asking for the pane that is known, or, if none is,
/// for the first pane of the session and then for that. If it is alive, it is the target.
pub proof fn prompts_find_their_pane(
    name: Seq<char>,
    known: Option<Seq<char>>,
    answers: Seq<AnswerModel>,
    listing: Seq<char>,
    pane: Seq<char>,
    detail: Seq<char>,
    target: Seq<char>,
)
    requires
        state::is_pane_id(pane),
        known is Some ==> known == Some(pane),
        ({
            let at: int = if known is Some {
                0
            } else {
                1
            };
            &&& known is None && answers.len() > 0 ==> checked(answers[0]) == Ok::<
                Seq<char>,
                ErrorModel,
            >(listing) && tmux::first_pane(listing, name) == Ok::<Seq<char>, Seq<char>>(pane)
            &&& answers.len() > at ==> checked(answers[at]) == Ok::<Seq<char>, ErrorModel>(detail)
                && tmux::pane_address(detail, name, pane) == Ok::<Seq<char>, Seq<char>>(target)
        }),
    ensures
        ({
            let at: int = if known is Some {
                0
            } else {
                1
            };
            address_task(name, known, answers) == (if answers.len() < at {
                TaskModel::Ask(CommandModel::ListPanes { session: name })
            } else if answers.len() == at {
                TaskModel::Ask(CommandModel::DescribePane { pane })
            } else {
                TaskModel::Finish(Some(target))
            })
        }),
{
    if known is None && answers.len() > 1 {
        assert(answers.skip(1)[0] == answers[1]);
    }
}

/// Whatever cannot be answered keeps a task from going on, and is what it ends with.
pub proof fn failed_answers_end_a_task(
    name: Seq<char>,
    setting: SettingModel,
    option: Seq<char>,
    answers: Seq<AnswerModel>,
    e: ErrorModel,
)
    requires
        answers.len() > 0,
    ensures
        identified(answers[0], name) == Err::<Seq<char>, ErrorModel>(e) ==> attach_task(
            name,
            answers,
        ) == TaskModel::Fail(e) && set_task(name, setting, answers) == TaskModel::Fail(e)
            && show_task(name, option, answers) == TaskModel::Fail(e),
        existence(answers[0]) == Err::<bool, ErrorModel>(e) ==> kill_task(name, answers)
            == TaskModel::Fail(e),
        existence(answers[0]) == Ok::<bool, ErrorModel>(true) && answers.len() > 1 && identified(
            answers[1],
            name,
        ) == Err::<Seq<char>, ErrorModel>(e) ==> kill_task(name, answers) == TaskModel::Fail(e),
        identified(answers[0], name) is Ok && answers.len() > 1 && checked(answers[1]) == Err::<
            Seq<char>,
            ErrorModel,
        >(e) ==> set_task(name, setting, answers) == TaskModel::Fail(e) && show_task(
            name,
            option,
            answers,
        ) == TaskModel::Fail(e),
        checked(answers[0]) == Err::<Seq<char>, ErrorModel>(e) ==> clear_task(name, answers)
            == TaskModel::Fail(e) && address_task(name, None, answers) == TaskModel::Fail(e),
{
}

} // verus!
