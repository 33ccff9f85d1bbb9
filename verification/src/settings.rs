//! What a managed session is set to: what it says of itself, and how it looks and
//! behaves.

use vstd::prelude::*;
#[allow(unused_imports)]
use vstd::string::*;

use crate::error::{message3, ErrorModel};
use crate::identity;
use crate::identity::status_left_length;
use crate::state::SessionMetadata;
use crate::tasks;
use crate::tasks::{
    check, identify, Answer, AnswerModel, OptionSetting, Scope, SettingModel, Task, TaskModel,
};
use crate::text;
use crate::text::same_text;
use crate::tmux::{CommandModel, TmuxCommand};

verus! {

pub open spec fn setting(scope: Scope, option: Seq<char>, value: Seq<char>) -> SettingModel {
    SettingModel { scope, option, value }
}

pub open spec fn setting_views(list: Seq<OptionSetting>) -> Seq<SettingModel> {
    list.map_values(|item: OptionSetting| item@)
}

/// What a session says of itself.
pub open spec fn metadata_settings(
    project: Seq<char>,
    worktree: Seq<char>,
    agent: Seq<char>,
) -> Seq<SettingModel> {
    seq![
        setting(Scope::Session, "@david-project"@, project),
        setting(Scope::Session, "@david-worktree"@, worktree),
        setting(Scope::Session, "@david-agent"@, agent),
    ]
}

/// How a session looks and behaves, behind its key table. Everything is set, so
/// that nothing is taken over from the server.
pub open spec fn affordance_settings(
    project: Seq<char>,
    worktree: Seq<char>,
    agent: Seq<char>,
) -> Seq<SettingModel> {
    seq![
        setting(Scope::Session, "mouse"@, "on"@),
        setting(Scope::Server, "extended-keys"@, "on"@),
        setting(Scope::Session, "status-style"@, "bg=colour254,fg=colour235"@),
        setting(Scope::Window, "window-style"@, "default"@),
        setting(Scope::Window, "window-active-style"@, "default"@),
        setting(Scope::Window, "pane-border-style"@, "fg=colour245"@),
        setting(Scope::Window, "pane-active-border-style"@, "fg=colour250"@),
        setting(Scope::Session, "status"@, "on"@),
        setting(
            Scope::Session,
            "status-left"@,
            "[DAVID] project: #{@david-project} | worktree: #{@david-worktree} | agent: #{@david-agent}"@,
        ),
        setting(
            Scope::Session,
            "status-left-length"@,
            text::decimal(identity::status_length(project, worktree, agent)),
        ),
        setting(Scope::Session, "status-right"@, "detach: Ctrl-]"@),
        setting(Scope::Session, "status-right-length"@, "32"@),
    ]
}

fn push_setting(list: &mut Vec<OptionSetting>, scope: Scope, option: &str, value: &str)
    ensures
        setting_views(final(list)@) == setting_views(old(list)@).push(
            setting(scope, option@, value@),
        ),
{
    let item: OptionSetting = OptionSetting {
        scope,
        option: option.to_owned(),
        value: value.to_owned(),
    };
    list.push(item);
    assert(setting_views(list@) =~= setting_views(old(list)@).push(
        setting(scope, option@, value@),
    ));
}

/// The settings that tell a session what it is.
pub fn describe(metadata: &SessionMetadata) -> (list: Vec<OptionSetting>)
    ensures
        setting_views(list@) == metadata_settings(
            metadata.project_name@,
            metadata.worktree_name@,
            metadata.agent_name@,
        ),
{
    let mut list: Vec<OptionSetting> = Vec::new();
    push_setting(&mut list, Scope::Session, "@david-project", metadata.project_name.as_str());
    push_setting(&mut list, Scope::Session, "@david-worktree", metadata.worktree_name.as_str());
    push_setting(&mut list, Scope::Session, "@david-agent", metadata.agent_name.as_str());
    assert(setting_views(list@) =~= metadata_settings(
        metadata.project_name@,
        metadata.worktree_name@,
        metadata.agent_name@,
    ));
    list
}

/// The settings that give a session its looks and its behaviour.
pub fn adorn(metadata: &SessionMetadata) -> (list: Vec<OptionSetting>)
    ensures
        setting_views(list@) == affordance_settings(
            metadata.project_name@,
            metadata.worktree_name@,
            metadata.agent_name@,
        ),
{
    let length: String = status_left_length(metadata);
    let mut list: Vec<OptionSetting> = Vec::new();
    push_setting(&mut list, Scope::Session, "mouse", "on");
    push_setting(&mut list, Scope::Server, "extended-keys", "on");
    push_setting(&mut list, Scope::Session, "status-style", "bg=colour254,fg=colour235");
    push_setting(&mut list, Scope::Window, "window-style", "default");
    push_setting(&mut list, Scope::Window, "window-active-style", "default");
    push_setting(&mut list, Scope::Window, "pane-border-style", "fg=colour245");
    push_setting(&mut list, Scope::Window, "pane-active-border-style", "fg=colour250");
    push_setting(&mut list, Scope::Session, "status", "on");
    push_setting(
        &mut list,
        Scope::Session,
        "status-left",
        "[DAVID] project: #{@david-project} | worktree: #{@david-worktree} | agent: #{@david-agent}",
    );
    push_setting(&mut list, Scope::Session, "status-left-length", length.as_str());
    push_setting(&mut list, Scope::Session, "status-right", "detach: Ctrl-]");
    push_setting(&mut list, Scope::Session, "status-right-length", "32");
    assert(setting_views(list@) =~= affordance_settings(
        metadata.project_name@,
        metadata.worktree_name@,
        metadata.agent_name@,
    ));
    list
}

/// The value that tmux has printed, with a line break behind it, is exactly this.
pub open spec fn shows(printed: Seq<char>, value: Seq<char>) -> bool {
    printed == value + "\n"@
}

/// Asking a session for options, one after the other, each of which has to be
/// exactly what it should be.
pub open spec fn compare_task(
    session: Seq<char>,
    wanted: Seq<SettingModel>,
    answers: Seq<AnswerModel>,
) -> TaskModel
    decreases wanted.len(),
{
    if wanted.len() == 0 {
        TaskModel::Finish(None)
    } else if answers.len() == 0 {
        TaskModel::Ask(CommandModel::ListSessions)
    } else {
        match tasks::identified(answers[0], session) {
            Err(e) => TaskModel::Fail(e),
            Ok(id) => if answers.len() == 1 {
                TaskModel::Ask(CommandModel::ShowOption { target: id, option: wanted[0].option })
            } else {
                match tasks::checked(answers[1]) {
                    Err(e) => TaskModel::Fail(e),
                    Ok(printed) => if shows(printed, wanted[0].value) {
                        compare_task(session, wanted.skip(1), answers.skip(2))
                    } else {
                        mismatch(session)
                    },
                }
            },
        }
    }
}

pub open spec fn mismatch(session: Seq<char>) -> TaskModel {
    TaskModel::Fail(
        ErrorModel::Message("tmux session "@ + session + " metadata does not match"@),
    )
}

/// Compares what a session says of itself with what it should say.
pub fn validate_session_metadata(
    session: &str,
    metadata: &SessionMetadata,
    answers: &Vec<Answer>,
) -> (task: Task)
    ensures
        task@ == compare_task(
            session@,
            metadata_settings(
                metadata.project_name@,
                metadata.worktree_name@,
                metadata.agent_name@,
            ),
            tasks::answer_views(answers@),
        ),
{
    let list: Vec<OptionSetting> = describe(metadata);
    let ghost wanted = setting_views(list@);
    let ghost all = tasks::answer_views(answers@);
    let mut i: usize = 0;
    let mut at: usize = 0;
    assert(wanted.skip(0) =~= wanted);
    assert(all.skip(0) =~= all);
    while i < list.len()
        invariant
            wanted == setting_views(list@),
            wanted == metadata_settings(
                metadata.project_name@,
                metadata.worktree_name@,
                metadata.agent_name@,
            ),
            all == tasks::answer_views(answers@),
            i <= list@.len(),
            at <= answers@.len(),
            compare_task(session@, wanted.skip(i as int), all.skip(at as int)) == compare_task(
                session@,
                wanted,
                all,
            ),
        decreases list@.len() - i,
    {
        let ghost rest = all.skip(at as int);
        assert(wanted.skip(i as int)[0] == list@[i as int]@);
        assert(wanted.skip(i as int).skip(1) =~= wanted.skip(i + 1));
        if answers.len() == at {
            return Task::Ask(TmuxCommand::ListSessions);
        }
        assert(rest[0] == answers@[at as int]@);
        let id: String = match identify(&answers[at], session) {
            Ok(id) => id,
            Err(e) => {
                return Task::Fail(e);
            },
        };
        if answers.len() - at == 1 {
            return Task::Ask(
                TmuxCommand::ShowOption { target: id, option: list[i].option.clone() },
            );
        }
        assert(rest[1] == answers@[at + 1]@);
        let printed: String = match check(&answers[at + 1]) {
            Ok(printed) => printed,
            Err(e) => {
                return Task::Fail(e);
            },
        };
        if !is_shown(printed.as_str(), list[i].value.as_str()) {
            return Task::Fail(message3("tmux session ", session, " metadata does not match"));
        }
        assert(rest.skip(2) =~= all.skip(at + 2));
        i = i + 1;
        at = at + 2;
    }
    Task::Finish(None)
}

fn is_shown(printed: &str, value: &str) -> (r: bool)
    ensures
        r == shows(printed@, value@),
{
    let mut expected: String = value.to_owned();
    expected.append("\n");
    same_text(printed, expected.as_str())
}

proof fn lemma_shown(value: Seq<char>, other: Seq<char>)
    ensures
        shows(value + "\n"@, other) <==> value == other,
{
    if shows(value + "\n"@, other) {
        let n = "\n"@.len() as int;
        assert((value + "\n"@).take((value + "\n"@).len() - n) =~= value);
        assert((other + "\n"@).take((other + "\n"@).len() - n) =~= other);
    }
}

/// A session that was told what it is, and prints that, is recognized as exactly
/// that and as nothing else.
pub proof fn described_sessions_are_recognized(
    session: Seq<char>,
    project: Seq<char>,
    worktree: Seq<char>,
    agent: Seq<char>,
    other_project: Seq<char>,
    other_worktree: Seq<char>,
    other_agent: Seq<char>,
    answers: Seq<AnswerModel>,
)
    requires
        answers.len() == 6,
        tasks::identified(answers[0], session) is Ok,
        tasks::identified(answers[2], session) is Ok,
        tasks::identified(answers[4], session) is Ok,
        tasks::checked(answers[1]) == Ok::<Seq<char>, ErrorModel>(project + "\n"@),
        tasks::checked(answers[3]) == Ok::<Seq<char>, ErrorModel>(worktree + "\n"@),
        tasks::checked(answers[5]) == Ok::<Seq<char>, ErrorModel>(agent + "\n"@),
    ensures
        compare_task(
            session,
            metadata_settings(other_project, other_worktree, other_agent),
            answers,
        ) == (if project == other_project && worktree == other_worktree && agent == other_agent {
            TaskModel::Finish(None)
        } else {
            mismatch(session)
        }),
{
    let wanted = metadata_settings(other_project, other_worktree, other_agent);
    lemma_shown(project, other_project);
    lemma_shown(worktree, other_worktree);
    lemma_shown(agent, other_agent);
    reveal_with_fuel(compare_task, 4);
    assert(wanted.skip(1).skip(1) =~= wanted.skip(2));
    assert(wanted.skip(2).skip(1) =~= Seq::<SettingModel>::empty());
    assert(answers.skip(2).skip(2) =~= answers.skip(4));
    assert(answers.skip(4).skip(2) =~= Seq::<AnswerModel>::empty());
}

/// A session is told its project, its worktree and its agent, and nothing else.
pub proof fn sessions_are_told_what_they_are(
    project: Seq<char>,
    worktree: Seq<char>,
    agent: Seq<char>,
)
    ensures
        ({
            let list = metadata_settings(project, worktree, agent);
            &&& list.len() == 3
            &&& list[0].option == "@david-project"@ && list[0].value == project
            &&& list[1].option == "@david-worktree"@ && list[1].value == worktree
            &&& list[2].option == "@david-agent"@ && list[2].value == agent
            &&& forall|i: int| 0 <= i < 3 ==> (#[trigger] list[i]).scope == Scope::Session
        }),
{
}

/// A session gets its looks and its behaviour whatever it is called: only the room for
/// the status line depends on what it shows.
pub proof fn sessions_get_their_looks(project: Seq<char>, worktree: Seq<char>, agent: Seq<char>)
    ensures
        ({
            let list = affordance_settings(project, worktree, agent);
            let is = |i: int, scope: Scope, option: Seq<char>, value: Seq<char>|
                list[i] == (SettingModel { scope, option, value });
            &&& list.len() == 12
            &&& is(0, Scope::Session, "mouse"@, "on"@)
            &&& is(1, Scope::Server, "extended-keys"@, "on"@)
            &&& is(2, Scope::Session, "status-style"@, "bg=colour254,fg=colour235"@)
            &&& is(3, Scope::Window, "window-style"@, "default"@)
            &&& is(4, Scope::Window, "window-active-style"@, "default"@)
            &&& is(5, Scope::Window, "pane-border-style"@, "fg=colour245"@)
            &&& is(6, Scope::Window, "pane-active-border-style"@, "fg=colour250"@)
            &&& is(7, Scope::Session, "status"@, "on"@)
            &&& is(
                8,
                Scope::Session,
                "status-left"@,
                "[DAVID] project: #{@david-project} | worktree: #{@david-worktree} | agent: #{@david-agent}"@,
            )
            &&& is(
                9,
                Scope::Session,
                "status-left-length"@,
                text::decimal(
                    ("[DAVID] project: "@ + project + " | worktree: "@ + worktree + " | agent: "@
                        + agent).len(),
                ),
            )
            &&& is(10, Scope::Session, "status-right"@, "detach: Ctrl-]"@)
            &&& is(11, Scope::Session, "status-right-length"@, "32"@)
        }),
{
    reveal_strlit("[DAVID] project:  | worktree:  | agent: ");
    reveal_strlit("[DAVID] project: ");
    reveal_strlit(" | worktree: ");
    reveal_strlit(" | agent: ");
}

/// What a session says of itself is asked for option by option, each time by its
/// identifier, as long as everything fits.
pub proof fn metadata_is_asked_for_in_order(
    session: Seq<char>,
    project: Seq<char>,
    worktree: Seq<char>,
    agent: Seq<char>,
    answers: Seq<AnswerModel>,
)
    requires
        answers.len() < 6,
        answers.len() > 0 ==> tasks::identified(answers[0], session) is Ok,
        answers.len() > 1 ==> tasks::checked(answers[1]) == Ok::<Seq<char>, ErrorModel>(
            project + "\n"@,
        ),
        answers.len() > 2 ==> tasks::identified(answers[2], session) is Ok,
        answers.len() > 3 ==> tasks::checked(answers[3]) == Ok::<Seq<char>, ErrorModel>(
            worktree + "\n"@,
        ),
        answers.len() > 4 ==> tasks::identified(answers[4], session) is Ok,
    ensures
        compare_task(session, metadata_settings(project, worktree, agent), answers) == (
        if answers.len() == 0 || answers.len() == 2 || answers.len() == 4 {
            TaskModel::Ask(CommandModel::ListSessions)
        } else {
            TaskModel::Ask(
                CommandModel::ShowOption {
                    target: tasks::identified(answers[answers.len() - 1], session)->Ok_0,
                    option: if answers.len() == 1 {
                        "@david-project"@
                    } else if answers.len() == 3 {
                        "@david-worktree"@
                    } else {
                        "@david-agent"@
                    },
                },
            )
        }),
{
    let wanted = metadata_settings(project, worktree, agent);
    reveal_with_fuel(compare_task, 4);
    assert(wanted.skip(1).skip(1) =~= wanted.skip(2));
    if answers.len() > 2 {
        assert(answers.skip(2)[0] == answers[2]);
    }
    if answers.len() > 3 {
        assert(answers.skip(2)[1] == answers[3]);
    }
    if answers.len() > 4 {
        assert(answers.skip(2).skip(2)[0] == answers[4]);
    }
}

/// A session that cannot be found, or asked, is reported as that.
pub proof fn unanswered_metadata_is_reported(
    session: Seq<char>,
    project: Seq<char>,
    worktree: Seq<char>,
    agent: Seq<char>,
    answers: Seq<AnswerModel>,
    e: ErrorModel,
)
    requires
        answers.len() > 0,
    ensures
        tasks::identified(answers[0], session) == Err::<Seq<char>, ErrorModel>(e) ==> compare_task(
            session,
            metadata_settings(project, worktree, agent),
            answers,
        ) == TaskModel::Fail(e),
        tasks::identified(answers[0], session) is Ok && answers.len() > 1 && tasks::checked(
            answers[1],
        ) == Err::<Seq<char>, ErrorModel>(e) ==> compare_task(
            session,
            metadata_settings(project, worktree, agent),
            answers,
        ) == TaskModel::Fail(e),
        mismatch(session) == TaskModel::Fail(
            ErrorModel::Message("tmux session "@ + session + " metadata does not match"@),
        ),
{
}

} // verus!
