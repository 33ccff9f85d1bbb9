//! What the contracts speak of is all that there is: the models of values leave nothing
//! out of them, and those of lists show every item in its place.

use vstd::prelude::*;

use crate::bytes;
use crate::cli::{Command, CommandLine};
use crate::config;
use crate::config::{Agent, Config, NamedAgent};
use crate::direct;
use crate::direct::DirectSession;
use crate::error::{ErrorModel, ToolError};
use crate::flow::Location;
use crate::git;
use crate::git::{Candidate, GitCommand, GitModel};
use crate::keys::{KeyModel, KeyTask};
use crate::layout;
use crate::layout::DavidPaths;
use crate::listing;
use crate::listing::{FoundWorktree, ManagedWorktree, NamedWorktree};
use crate::migrate;
use crate::migrate::{Item, Move};
use crate::process::{CommandOutput, Invocation};
use crate::selection::{Selection, SelectionModel};
use crate::settings;
use crate::state;
use crate::state::{SessionMetadata, SessionState};
use crate::steps;
use crate::steps::{Facts, Reply, Step};
use crate::tasks;
use crate::tasks::{Answer, AnswerModel, OptionSetting, Task, TaskModel};
use crate::text;
use crate::tmux::{CommandModel, TmuxCommand};
use crate::worktree;
use crate::worktree::Worktree;

verus! {

/// Lists of texts and of byte strings show every item in its place, and what is optional
/// is there exactly if it is.
pub proof fn lists_of_texts_show_every_item(
    texts: Seq<String>,
    blobs: Seq<Vec<u8>>,
    text: String,
    blob: Vec<u8>,
)
    ensures
        text::views(texts).len() == texts.len(),
        forall|i: int| 0 <= i < texts.len() ==> #[trigger] text::views(texts)[i] == texts[i]@,
        bytes::byte_views(blobs).len() == blobs.len(),
        forall|i: int| 0 <= i < blobs.len() ==> #[trigger] bytes::byte_views(blobs)[i] == blobs[i]@,
        config::optional_text(Some(text)) == Some(text@),
        config::optional_text(None) is None,
        layout::optional_bytes(Some(blob)) == Some(blob@),
        layout::optional_bytes(None) is None,
        git::resolved_view(Some(blob)) == Some(blob@),
        git::resolved_view(None) is None,
{
}

/// All worktrees of a list are shown, each with all that is known of it.
pub proof fn lists_of_worktrees_show_every_worktree(
    entries: Seq<ManagedWorktree>,
    found: Seq<FoundWorktree>,
    named: Seq<NamedWorktree>,
    worktrees: Seq<Worktree>,
    candidates: Seq<Candidate>,
)
    ensures
        listing::entry_views(entries).len() == entries.len(),
        forall|i: int|
            0 <= i < entries.len() ==> #[trigger] listing::entry_views(entries)[i] == entries[i]@,
        listing::found_views(found).len() == found.len(),
        forall|i: int|
            0 <= i < found.len() ==> #[trigger] listing::found_views(found)[i] == (
                found[i].worktree@,
                found[i].contained,
            ),
        listing::named_views(named).len() == named.len(),
        forall|i: int|
            0 <= i < named.len() ==> #[trigger] listing::named_views(named)[i] == (
                named[i].name@,
                named[i].worktree@,
            ),
        worktree::worktree_views(worktrees).len() == worktrees.len(),
        forall|i: int|
            0 <= i < worktrees.len() ==> #[trigger] worktree::worktree_views(worktrees)[i]
                == worktrees[i]@,
        git::candidate_views(candidates).len() == candidates.len(),
        forall|i: int|
            0 <= i < candidates.len() ==> #[trigger] git::candidate_views(candidates)[i]
                == candidates[i]@,
{
}

/// A worktree is shown with its path, its commit and its branch; an entry of a list with
/// its name, its branch, its agent, its session and its path.
pub proof fn worktrees_are_shown_whole(
    worktree: Worktree,
    entry: ManagedWorktree,
    candidate: Candidate,
)
    ensures
        worktree@.path == worktree.path@,
        worktree@.head == worktree.head@,
        worktree@.branch == config::optional_text(worktree.branch),
        worktree::optional_worktree(Some(worktree)) == Some(worktree@),
        worktree::optional_worktree(None) is None,
        entry@.name == entry.name@,
        entry@.branch == entry.branch@,
        entry@.agent == entry.agent@,
        entry@.session == entry.session,
        entry@.path == entry.path@,
        candidate@.worktree == candidate.worktree@,
        candidate@.resolved == candidate.resolved@,
        candidate@.is_directory == candidate.is_directory,
{
}

/// A configuration is shown with all its agents, in their order, each with its command and
/// its arguments, and with its default.
pub proof fn configurations_are_shown_whole(
    config: Config,
    named: NamedAgent,
    agent: Agent,
    entry: NamedAgent,
)
    ensures
        agent@.command == agent.command@,
        agent@.args == text::views(agent.args@),
        named@ == (named.name@, named.agent@),
        config@.agents.len() == config.agents@.len(),
        forall|i: int|
            0 <= i < config.agents@.len() ==> #[trigger] config@.agents[i] == config.agents@[i]@,
        config@.default_agent == config::optional_text(config.default_agent),
        (Selection::Chosen(entry))@ == SelectionModel::Chosen(entry@),
        (Selection::Pick)@ == SelectionModel::Pick,
        (Selection::Unavailable)@ == SelectionModel::Unavailable,
{
}

/// The record of a session is shown with all its fields, and so are the places of a
/// worktree and the directories of the tool.
pub proof fn records_and_places_are_shown_whole(
    record: SessionState,
    location: Location,
    paths: DavidPaths,
    pairs: Seq<(String, String)>,
)
    ensures
        record@.repo_id == record.repo_id@,
        record@.worktree_name == record.worktree_name@,
        record@.worktree_path == record.worktree_path@,
        record@.branch == record.branch@,
        record@.session == record.session@,
        record@.agent == record.agent@,
        record@.pane == config::optional_text(record.pane),
        location@.root == location.root@,
        location@.repo_id == location.repo_id@,
        location@.project_name == location.project_name@,
        location@.target == location.target@,
        location@.state_path == location.state_path@,
        location@.session == location.session@,
        paths@.worktrees == paths.worktrees@,
        paths@.sessions == paths.sessions@,
        paths@.config == paths.config@,
        state::pair_views(pairs).len() == pairs.len(),
        forall|i: int|
            0 <= i < pairs.len() ==> #[trigger] state::pair_views(pairs)[i] == (
                pairs[i].0@,
                pairs[i].1@,
            ),
{
}

/// Everything that is to be moved is shown, with where it comes from and where it goes.
pub proof fn moves_are_shown_whole(items: Seq<Item>, moves: Seq<Move>)
    ensures
        migrate::item_views(items).len() == items.len(),
        forall|i: int|
            0 <= i < items.len() ==> {
                let item = #[trigger] migrate::item_views(items)[i];
                item.kind == items[i].kind && item.name == items[i].name@ && item.taken
                    == items[i].taken
            },
        migrate::move_views(moves).len() == moves.len(),
        forall|i: int|
            0 <= i < moves.len() ==> #[trigger] migrate::move_views(moves)[i] == (
                moves[i].from@,
                moves[i].to@,
            ),
{
}

/// What a program is run with, and what came of it, is shown whole.
pub proof fn programs_are_shown_whole(invocation: Invocation, output: CommandOutput)
    ensures
        invocation@.program == invocation.program@,
        invocation@.directory == layout::optional_bytes(invocation.directory),
        invocation@.arguments == bytes::byte_views(invocation.arguments@),
        output@.success == output.success,
        output@.code == output.code,
        output@.status == output.status@,
        output@.stdout == output.stdout@,
        output@.stderr == output.stderr@,
{
}

/// Errors are shown as they are.
pub proof fn errors_are_shown_whole(text: String, program: String, error: ToolError)
    ensures
        (ToolError::Message(text))@ == ErrorModel::Message(text@),
        (ToolError::ConfigParse(text))@ == ErrorModel::ConfigParse(text@),
        (ToolError::ConfigSerialize(text))@ == ErrorModel::ConfigSerialize(text@),
        (ToolError::Command { program, detail: text })@ == (ErrorModel::Command {
            program: program@,
            detail: text@,
        }),
        (ToolError::AgentSelectionUnavailable)@ == ErrorModel::AgentSelectionUnavailable,
        error matches ToolError::Io(failure) ==> error@ == (ErrorModel::Io {
            not_found: failure.not_found,
            detail: failure.detail@,
        }),
        error@ is Message <==> error is Message,
        error@ is Io <==> error is Io,
{
}

/// The conversation with tmux is shown answer by answer and task by task.
pub proof fn conversations_are_shown_whole(
    answers: Seq<Answer>,
    output: CommandOutput,
    command: TmuxCommand,
    error: ToolError,
    value: Option<String>,
    answer: Answer,
)
    ensures
        tasks::answer_views(answers).len() == answers.len(),
        forall|i: int|
            0 <= i < answers.len() ==> #[trigger] tasks::answer_views(answers)[i] == answers[i]@,
        (Answer::Ended(output))@ == AnswerModel::Ended(output@),
        (Answer::Done)@ == AnswerModel::Done,
        answer matches Answer::Failed(failure) ==> answer@ == (AnswerModel::Failed {
            not_found: failure.not_found,
            detail: failure.detail@,
        }),
        (Task::Ask(command))@ == TaskModel::Ask(command@),
        (Task::Join(command))@ == TaskModel::Join(command@),
        (Task::Abandon(error))@ == TaskModel::Abandon(error@),
        (Task::Fail(error))@ == TaskModel::Fail(error@),
        (Task::Finish(value))@ == TaskModel::Finish(config::optional_text(value)),
        (KeyTask::Ask(command))@ == KeyModel::Ask(command@),
        (KeyTask::Fail(error))@ == KeyModel::Fail(error@),
        (KeyTask::Finish)@ == KeyModel::Finish,
{
}

/// The files of a configuration of keys are shown by their paths and their content.
pub proof fn key_files_are_shown_whole(path: Vec<u8>, content: Vec<u8>)
    ensures
        (KeyTask::MakeDirectory(path))@ == KeyModel::MakeDirectory(path@),
        (KeyTask::CreateFile(path))@ == KeyModel::CreateFile(path@),
        (KeyTask::WriteFile(path, content))@ == KeyModel::WriteFile(path@, content@),
        (KeyTask::RemoveFile(path))@ == KeyModel::RemoveFile(path@),
        (KeyTask::RemoveDirectory(path))@ == KeyModel::RemoveDirectory(path@),
{
}

/// Settings are shown with their scope, their option and their value.
pub proof fn settings_are_shown_whole(list: Seq<OptionSetting>)
    ensures
        settings::setting_views(list).len() == list.len(),
        forall|i: int|
            0 <= i < list.len() ==> {
                let one = #[trigger] settings::setting_views(list)[i];
                one.scope == list[i].scope && one.option == list[i].option@ && one.value
                    == list[i].value@
            },
{
}

/// Commands for Git are shown as they are.
pub proof fn git_commands_are_shown_whole(
    name: String,
    head: String,
    path: Vec<u8>,
    force: bool,
    apply: bool,
)
    ensures
        (GitCommand::Root)@ == GitModel::Root,
        (GitCommand::CommonDirectory)@ == GitModel::CommonDirectory,
        (GitCommand::Head)@ == GitModel::Head,
        (GitCommand::Status)@ == GitModel::Status,
        (GitCommand::CheckBranch(name))@ == GitModel::CheckBranch(name@),
        (GitCommand::Worktrees)@ == GitModel::Worktrees,
        (GitCommand::AddWorktree { name, path })@ == (GitModel::AddWorktree {
            name: name@,
            path: path@,
        }),
        (GitCommand::RemoveWorktree { path, force })@ == (GitModel::RemoveWorktree {
            path: path@,
            force,
        }),
        (GitCommand::DeleteBranch { name, head })@ == (GitModel::DeleteBranch {
            name: name@,
            head: head@,
        }),
        (GitCommand::RebaseNote { apply })@ == (GitModel::RebaseNote { apply }),
        (GitCommand::Repair)@ == GitModel::Repair,
{
}

/// Commands for tmux on sessions and panes are shown as they are.
pub proof fn session_commands_are_shown_whole(
    session: String,
    cwd: Vec<u8>,
    agent: Agent,
    id: String,
    pane: String,
    buffer: String,
)
    ensures
        (TmuxCommand::Version)@ == CommandModel::Version,
        (TmuxCommand::HasSession { session })@ == (CommandModel::HasSession { session: session@ }),
        (TmuxCommand::ListSessions)@ == CommandModel::ListSessions,
        (TmuxCommand::NewSession { session, cwd, agent })@ == (CommandModel::NewSession {
            session: session@,
            cwd: cwd@,
            agent: agent@,
        }),
        (TmuxCommand::KillSession { id })@ == (CommandModel::KillSession { id: id@ }),
        (TmuxCommand::AttachSession { id })@ == (CommandModel::AttachSession { id: id@ }),
        (TmuxCommand::ListWindows { session })@ == (CommandModel::ListWindows {
            session: session@,
        }),
        (TmuxCommand::ListPanes { session })@ == (CommandModel::ListPanes { session: session@ }),
        (TmuxCommand::DescribePane { pane })@ == (CommandModel::DescribePane { pane: pane@ }),
        (TmuxCommand::ProbePane { pane })@ == (CommandModel::ProbePane { pane: pane@ }),
        (TmuxCommand::DeleteBuffer { buffer })@ == (CommandModel::DeleteBuffer {
            buffer: buffer@,
        }),
        (TmuxCommand::Paste { buffer, pane })@ == (CommandModel::Paste {
            buffer: buffer@,
            pane: pane@,
        }),
        (TmuxCommand::Enter { pane })@ == (CommandModel::Enter { pane: pane@ }),
{
}

/// Commands for tmux on options and keys are shown as they are.
pub proof fn option_commands_are_shown_whole(
    target: String,
    option: String,
    value: String,
    table: String,
    path: Vec<u8>,
)
    ensures
        (TmuxCommand::SetOption { target, option, value })@ == (CommandModel::SetOption {
            target: target@,
            option: option@,
            value: value@,
        }),
        (TmuxCommand::SetWindowOption { target, option, value })@
            == (CommandModel::SetWindowOption {
            target: target@,
            option: option@,
            value: value@,
        }),
        (TmuxCommand::SetServerOption { option, value })@ == (CommandModel::SetServerOption {
            option: option@,
            value: value@,
        }),
        (TmuxCommand::ShowOption { target, option })@ == (CommandModel::ShowOption {
            target: target@,
            option: option@,
        }),
        (TmuxCommand::ListKeys { table })@ == (CommandModel::ListKeys { table: table@ }),
        (TmuxCommand::ClearKeys { table })@ == (CommandModel::ClearKeys { table: table@ }),
        (TmuxCommand::SourceFile { path })@ == (CommandModel::SourceFile { path: path@ }),
{
}

/// What was asked for on the command line is shown whole.
pub proof fn command_lines_are_shown_whole(
    name: String,
    message: String,
    one: bool,
    two: bool,
    command: Command,
)
    ensures
        (Command::Setup)@ == CommandLine::Setup,
        (Command::Migrate { dry_run: one })@ == (CommandLine::Migrate { dry_run: one }),
        (Command::Edit { worktree: name })@ == (CommandLine::Edit { worktree: name@ }),
        (Command::Attach { name })@ == (CommandLine::Attach { name: name@ }),
        (Command::Prompt { worktree: name, message })@ == (CommandLine::Prompt {
            worktree: name@,
            message: message@,
        }),
        (Command::List { porcelain: one, zero: two })@ == (CommandLine::List {
            porcelain: one,
            zero: two,
        }),
        (Command::Path { name, zero: one })@ == (CommandLine::Path { name: name@, zero: one }),
        (Command::Remove { name, force: one })@ == (CommandLine::Remove { name: name@, force: one }),
        command matches Command::Run { name, agent, tmux, detach, no_interactive, agent_args }
            ==> command@ == (CommandLine::Run {
            name: config::optional_text(name),
            agent: config::optional_text(agent),
            tmux,
            detach,
            no_interactive,
            agent_args: text::views(agent_args@),
        }),
{
}

/// Of the steps of an operation the reply to each is known, and of a session of this
/// process what it was told.
pub proof fn replies_are_shown_whole(
    facts: Facts,
    replies: Seq<(Step, Reply)>,
    step: Step,
    reply: Reply,
    session: DirectSession,
    metadata: SessionMetadata,
)
    ensures
        facts@ == steps::known(facts.replies@),
        steps::known(replies.push((step, reply))) == steps::known(replies).insert(step, reply),
        steps::known(Seq::empty()) == Map::<Step, Reply>::empty(),
        steps::reply(steps::known(replies).insert(step, reply), step) == Some(reply),
        session@.cwd == session.cwd@,
        session@.metadata == direct::optional_metadata(session.metadata),
        session@.reserved == session.reserved,
        direct::optional_metadata(Some(metadata)) == Some(
            (metadata.project_name@, metadata.worktree_name@, metadata.agent_name@),
        ),
        direct::optional_metadata(None) is None,
        direct::metadata_view(metadata) == (
            metadata.project_name@,
            metadata.worktree_name@,
            metadata.agent_name@,
        ),
{
    assert(replies.push((step, reply)).drop_last() =~= replies);
}

} // verus!
