//! What the operations are for: the steps that each of them takes one after the
//! other, and what it answers if one of them does not go well.

use vstd::prelude::*;

use crate::steps;
use crate::steps::{Operation, Outcome, Reply, Setting, Step};

verus! {

/// A question that has to be answered with yes for the operation to go on.
pub open spec fn is_condition(step: Step) -> bool {
    ||| step == Step::CheckDirectory
    ||| step == Step::CheckRebase
    ||| step == Step::CheckSource
    ||| step == Step::ReadState
    ||| step == Step::CheckPane
    ||| step == Step::CheckCommand
    ||| step == Step::CheckStarted
    ||| step == Step::CheckAgent
    ||| step == Step::CheckRecorded
    ||| step == Step::CheckConfigured
    ||| step == Step::CheckWorktree
    ||| step == Step::RecheckWorktree
}

/// An answer with which the operation goes on.
pub open spec fn is_good(step: Step, reply: Reply) -> bool {
    if reply == Reply::Failed {
        false
    } else if step == Step::CheckTarget {
        reply == Reply::No
    } else if step == Step::LoadConfig {
        reply == Reply::Yes || reply == Reply::Without
    } else {
        is_condition(step) ==> reply != Reply::No
    }
}

/// The step was taken, with an answer with which the operation goes on.
pub open spec fn well(facts: Map<Step, Reply>, step: Step) -> bool {
    facts.dom().contains(step) && is_good(step, facts[step])
}

/// The place in a plan that an operation has come to: everything before it went
/// well, and it is still to be taken, or did not go well.
pub open spec fn has_come_to(facts: Map<Step, Reply>, plan: Seq<Step>, at: int) -> bool {
    &&& 0 <= at <= plan.len()
    &&& forall|j: int| 0 <= j < at ==> well(facts, #[trigger] plan[j])
    &&& at < plan.len() ==> !well(facts, plan[at])
}

/// What it means to have come to a place, step by step.
proof fn lemma_places(facts: Map<Step, Reply>, plan: Seq<Step>, at: int)
    requires
        has_come_to(facts, plan, at),
        plan.len() <= 12,
    ensures
        at > 0 ==> well(facts, plan[0]),
        at > 1 ==> well(facts, plan[1]),
        at > 2 ==> well(facts, plan[2]),
        at > 3 ==> well(facts, plan[3]),
        at > 4 ==> well(facts, plan[4]),
        at > 5 ==> well(facts, plan[5]),
        at > 6 ==> well(facts, plan[6]),
        at > 7 ==> well(facts, plan[7]),
        at > 8 ==> well(facts, plan[8]),
        at > 9 ==> well(facts, plan[9]),
        at > 10 ==> well(facts, plan[10]),
        at > 11 ==> well(facts, plan[11]),
        at == 0 || at == 1 || at == 2 || at == 3 || at == 4 || at == 5 || at == 6 || at == 7 || at
            == 8 || at == 9 || at == 10 || at == 11 || at == 12,
{
}

/// How an operation ends because of an answer that is not good.
pub open spec fn refusal(operation: Operation, live: bool, step: Step, reply: Reply) -> Outcome {
    match step {
        Step::Deliver => Outcome::Undelivered,
        _ => if reply == Reply::Failed {
            Outcome::Reported
        } else {
            match step {
                Step::CheckDirectory => Outcome::Missing,
                Step::CheckRebase => Outcome::WrongBranch,
                Step::CheckTarget => Outcome::Occupied,
                Step::CheckSource => Outcome::DirtySource,
                Step::ReadState => match operation {
                    Operation::Attach => Outcome::AgentMismatch,
                    Operation::Prompt => Outcome::AgentMismatch,
                    Operation::Run => if live {
                        Outcome::Mismatch
                    } else {
                        Outcome::StaleMismatch
                    },
                    _ => Outcome::MetadataMismatch,
                },
                Step::CheckPane => Outcome::DeadPane,
                Step::LoadConfig => if reply == Reply::No {
                    Outcome::UnknownAgent
                } else {
                    Outcome::SelectionUnavailable
                },
                Step::CheckCommand => Outcome::CommandMissing,
                Step::CheckWorktree => Outcome::DirtyWorktree,
                _ => Outcome::ChangedWhileStopping,
            }
        },
    }
}

/// What an operation does at a place in its plan: take the step that stands there,
/// end if that did not go well, or go on behind the plan.
pub open spec fn due(
    setting: Setting,
    facts: Map<Step, Reply>,
    plan: Seq<Step>,
    at: int,
    end: Step,
) -> Step {
    if at >= plan.len() {
        end
    } else if !facts.dom().contains(plan[at]) {
        plan[at]
    } else {
        Step::Finish(
            refusal(
                setting.operation,
                facts.dom().contains(Step::FindSession) && facts[Step::FindSession] != Reply::No,
                plan[at],
                facts[plan[at]],
            ),
        )
    }
}

/// The reply is this one.
pub open spec fn says(facts: Map<Step, Reply>, step: Step, reply: Reply) -> bool {
    facts.dom().contains(step) && facts[step] == reply
}

/// What every operation on a named worktree begins with.
pub open spec fn introduction(operation: Operation) -> Seq<Step> {
    match operation {
        Operation::Edit => seq![Step::Locate, Step::Contain, Step::Find],
        Operation::Path => seq![Step::Locate, Step::Contain, Step::Find],
        Operation::Prompt => seq![
            Step::EnsureAvailable,
            Step::Locate,
            Step::Lock,
            Step::Contain,
            Step::CheckDirectory,
            Step::Find,
        ],
        _ => seq![Step::EnsureAvailable, Step::Locate, Step::Lock, Step::Contain, Step::Find],
    }
}

/// The introduction went well.
pub open spec fn is_introduced(setting: Setting, facts: Map<Step, Reply>) -> bool {
    &&& setting.operation != Operation::Status
    &&& setting.valid_name
    &&& forall|j: int|
        0 <= j < introduction(setting.operation).len() ==> well(
            facts,
            #[trigger] introduction(setting.operation)[j],
        )
}

/// Every operation on a named worktree begins by finding the worktree: it makes sure
/// that sessions are available, locates the repository, takes the lock, makes sure
/// that the worktree lies where it should, and asks Git for it.
pub proof fn operations_begin_by_finding_the_worktree(
    setting: Setting,
    facts: Map<Step, Reply>,
    at: int,
)
    requires
        setting.operation != Operation::Status,
        setting.valid_name,
        has_come_to(facts, introduction(setting.operation), at),
        at < introduction(setting.operation).len(),
    ensures
        steps::next_step(setting, facts) == due(
            setting,
            facts,
            introduction(setting.operation),
            at,
            Step::Find,
        ),
{
    reveal(steps::next_step);
    let plan = introduction(setting.operation);
    lemma_places(facts, plan, at);
}

/// A name that cannot be used is refused before anything is looked at, once sessions
/// are known to be available.
pub proof fn bad_names_are_refused(setting: Setting, facts: Map<Step, Reply>)
    requires
        setting.operation != Operation::Status,
        !setting.valid_name,
    ensures
        ({
            let next = steps::next_step(setting, facts);
            if setting.operation == Operation::Edit || setting.operation == Operation::Path
                || well(facts, Step::EnsureAvailable) {
                next == Step::Finish(Outcome::BadName)
            } else if facts.dom().contains(Step::EnsureAvailable) {
                next == Step::Finish(Outcome::Reported)
            } else {
                next == Step::EnsureAvailable
            }
        }),
{
    reveal(steps::next_step);
}

proof fn lemma_introduced(setting: Setting, facts: Map<Step, Reply>)
    requires
        is_introduced(setting, facts),
    ensures
        steps::next_step(setting, facts) == steps::main_step(setting, facts),
        facts.dom().contains(Step::Find),
        facts[Step::Find] != Reply::Failed,
{
    reveal(steps::next_step);
    let plan = introduction(setting.operation);
    lemma_places(facts, plan, plan.len() as int);
}

/// A worktree that Git does not know, or that is on another branch, is refused by
/// every operation but a run, which only refuses the latter; one that is on no
/// branch is refused by all but a run and attaching.
pub proof fn other_worktrees_are_refused(setting: Setting, facts: Map<Step, Reply>)
    requires
        is_introduced(setting, facts),
    ensures
        says(facts, Step::Find, Reply::No) && setting.operation != Operation::Run
            ==> steps::next_step(setting, facts) == Step::Finish(Outcome::Missing),
        says(facts, Step::Find, Reply::Other) ==> steps::next_step(setting, facts) == Step::Finish(
            Outcome::WrongBranch,
        ),
        says(facts, Step::Find, Reply::Without) && setting.operation != Operation::Run
            && setting.operation != Operation::Attach ==> steps::next_step(setting, facts)
            == Step::Finish(Outcome::WrongBranch),
{
    lemma_introduced(setting, facts);
}

/// How the agent of a session is seen to be alive: by its recorded pane, or else by
/// the pane that is found, if sessions have panes.
pub open spec fn pane_plan(facts: Map<Step, Reply>) -> Seq<Step> {
    if says(facts, Step::ReadState, Reply::Yes) {
        seq![Step::CheckPane]
    } else if says(facts, Step::FindPane, Reply::No) {
        seq![Step::FindPane]
    } else {
        seq![Step::FindPane, Step::CheckPane]
    }
}

/// How a session is seen to be what it should be.
pub open spec fn session_plan(facts: Map<Step, Reply>) -> Seq<Step> {
    seq![Step::FindSession, Step::FindState, Step::ReadState, Step::CheckMetadata] + pane_plan(
        facts,
    )
}

/// What comes before the session of a worktree that may be on no branch.
pub open spec fn rebase_plan(facts: Map<Step, Reply>) -> Seq<Step> {
    if says(facts, Step::Find, Reply::Without) {
        seq![Step::CheckRebase]
    } else {
        seq![]
    }
}

/// What attaching and prompting come to.
pub open spec fn request_plan(operation: Operation, facts: Map<Step, Reply>) -> Seq<Step> {
    if operation == Operation::Attach {
        rebase_plan(facts) + session_plan(facts) + seq![Step::Attach]
    } else {
        session_plan(facts) + seq![Step::Deliver]
    }
}

/// Attaching to a worktree, on its branch or in the middle of a rebase, attaches to
/// its session, and prompting delivers the prompt to it, once the session was found,
/// recorded, seen to be what it should be and its agent seen to be alive. That done,
/// they end well.
pub proof fn requests_reach_the_session(setting: Setting, facts: Map<Step, Reply>, at: int)
    requires
        setting.operation == Operation::Attach || setting.operation == Operation::Prompt,
        is_introduced(setting, facts),
        says(facts, Step::Find, Reply::Yes) || says(facts, Step::Find, Reply::Without)
            && setting.operation == Operation::Attach,
        !says(facts, Step::FindSession, Reply::No),
        !says(facts, Step::FindState, Reply::No),
        has_come_to(facts, request_plan(setting.operation, facts), at),
    ensures
        steps::next_step(setting, facts) == due(
            setting,
            facts,
            request_plan(setting.operation, facts),
            at,
            Step::Finish(Outcome::Done),
        ),
{
    lemma_introduced(setting, facts);
    let plan = request_plan(setting.operation, facts);
    lemma_places(facts, plan, at);
}

/// Without a session, attaching and prompting say whether there is a record of one
/// that belongs to something else, or one whose session is not running.
pub proof fn requests_need_a_session(setting: Setting, facts: Map<Step, Reply>, at: int)
    requires
        setting.operation == Operation::Attach || setting.operation == Operation::Prompt,
        is_introduced(setting, facts),
        says(facts, Step::Find, Reply::Yes) || says(facts, Step::Find, Reply::Without)
            && setting.operation == Operation::Attach && well(facts, Step::CheckRebase),
        says(facts, Step::FindSession, Reply::No),
        !says(facts, Step::FindState, Reply::No),
        has_come_to(facts, seq![Step::FindState, Step::ReadState], at),
    ensures
        steps::next_step(setting, facts) == due(
            setting,
            facts,
            seq![Step::FindState, Step::ReadState],
            at,
            Step::Finish(Outcome::NotRunning),
        ),
{
    lemma_introduced(setting, facts);
    lemma_places(facts, seq![Step::FindState, Step::ReadState], at);
}

/// Without a record, attaching and prompting say that there is no session, or that it
/// is not managed.
pub proof fn requests_need_a_record(setting: Setting, facts: Map<Step, Reply>)
    requires
        setting.operation == Operation::Attach || setting.operation == Operation::Prompt,
        is_introduced(setting, facts),
        says(facts, Step::Find, Reply::Yes) || says(facts, Step::Find, Reply::Without)
            && setting.operation == Operation::Attach && well(facts, Step::CheckRebase),
        well(facts, Step::FindSession),
        says(facts, Step::FindState, Reply::No),
    ensures
        steps::next_step(setting, facts) == Step::Finish(
            if says(facts, Step::FindSession, Reply::No) {
                Outcome::NoSession
            } else {
                Outcome::UnmanagedAgent
            },
        ),
{
    lemma_introduced(setting, facts);
}

/// Editing opens the editor on the worktree, and asking for its path resolves it.
pub proof fn worktrees_are_opened_and_told(setting: Setting, facts: Map<Step, Reply>)
    requires
        setting.operation == Operation::Edit || setting.operation == Operation::Path,
        is_introduced(setting, facts),
        says(facts, Step::Find, Reply::Yes),
    ensures
        ({
            let wanted = if setting.operation == Operation::Edit {
                Step::OpenEditor
            } else {
                Step::ResolvePath
            };
            let at: int = if well(facts, wanted) {
                1
            } else {
                0
            };
            steps::next_step(setting, facts) == due(
                setting,
                facts,
                seq![wanted],
                at,
                Step::Finish(Outcome::Done),
            )
        }),
{
    lemma_introduced(setting, facts);
}

/// How a removal deals with the session: without one, a record that is left has to
/// match; a live one has to be recorded and what it should be, and is stopped. A
/// removal without force looks at the worktree before, and again once the session is
/// stopped.
pub open spec fn stop_plan(setting: Setting, facts: Map<Step, Reply>) -> Seq<Step> {
    let looked = if setting.force {
        Seq::<Step>::empty()
    } else {
        seq![Step::CheckWorktree]
    };
    let found = seq![Step::FindSession, Step::FindState];
    if says(facts, Step::FindSession, Reply::No) {
        if says(facts, Step::FindState, Reply::No) {
            looked + found
        } else {
            looked + found + seq![Step::ReadState]
        }
    } else {
        looked + found + seq![Step::ReadState, Step::CheckMetadata, Step::StopSession] + (
        if setting.force {
            seq![]
        } else {
            seq![Step::RecheckWorktree]
        })
    }
}

/// What a removal removes.
pub open spec fn delete_plan(facts: Map<Step, Reply>) -> Seq<Step> {
    let gone = seq![Step::FindRoot, Step::RemoveWorktree, Step::DeleteBranch, Step::FindStale];
    if says(facts, Step::FindStale, Reply::No) {
        gone
    } else {
        gone.push(Step::RemoveState)
    }
}

/// Nothing keeps the removal from removing the worktree any more.
pub open spec fn may_delete(setting: Setting, facts: Map<Step, Reply>) -> bool {
    &&& setting.operation == Operation::Remove
    &&& is_introduced(setting, facts)
    &&& says(facts, Step::Find, Reply::Yes)
    &&& says(facts, Step::FindSession, Reply::No) || !says(facts, Step::FindState, Reply::No)
    &&& has_come_to(facts, stop_plan(setting, facts), stop_plan(setting, facts).len() as int)
}

/// A removal of a worktree on its branch looks at it, unless changes do not matter,
/// and at its session, which it stops if there is one. Then it goes on to remove, and
/// it ends earlier only if one of these did not go well.
pub proof fn removals_stop_the_session(setting: Setting, facts: Map<Step, Reply>, at: int)
    requires
        setting.operation == Operation::Remove,
        is_introduced(setting, facts),
        says(facts, Step::Find, Reply::Yes),
        says(facts, Step::FindSession, Reply::No) || !says(facts, Step::FindState, Reply::No),
        has_come_to(facts, stop_plan(setting, facts), at),
        at < stop_plan(setting, facts).len(),
    ensures
        steps::next_step(setting, facts) == due(
            setting,
            facts,
            stop_plan(setting, facts),
            at,
            Step::FindRoot,
        ),
{
    lemma_introduced(setting, facts);
    let plan = stop_plan(setting, facts);
    lemma_places(facts, plan, at);
}

/// A live session that nothing is recorded of stops a removal.
pub proof fn unmanaged_sessions_stop_a_removal(setting: Setting, facts: Map<Step, Reply>)
    requires
        setting.operation == Operation::Remove,
        is_introduced(setting, facts),
        says(facts, Step::Find, Reply::Yes),
        setting.force || well(facts, Step::CheckWorktree),
        well(facts, Step::FindSession),
        !says(facts, Step::FindSession, Reply::No),
        says(facts, Step::FindState, Reply::No),
    ensures
        steps::next_step(setting, facts) == Step::Finish(Outcome::Unmanaged),
{
    lemma_introduced(setting, facts);
}

/// A removal that nothing keeps from it, with or without a session, removes the
/// worktree, deletes the branch and removes the record that is left, if there is one.
/// Then it ends well.
pub proof fn removals_remove_everything(setting: Setting, facts: Map<Step, Reply>, at: int)
    requires
        may_delete(setting, facts),
        has_come_to(facts, delete_plan(facts), at),
    ensures
        steps::next_step(setting, facts) == due(
            setting,
            facts,
            delete_plan(facts),
            at,
            Step::Finish(Outcome::Done),
        ),
{
    lemma_introduced(setting, facts);
    let before = stop_plan(setting, facts);
    lemma_places(facts, before, before.len() as int);
    let plan = delete_plan(facts);
    lemma_places(facts, plan, at);
}

/// What a run looks at before it looks for a session: nothing more for a worktree on
/// its branch, the rebase for one on no branch, and for one that is to be created
/// that its place is free, that the repository has a commit and no changes, and that
/// a branch can have the name.
pub open spec fn source_plan(facts: Map<Step, Reply>) -> Seq<Step> {
    if says(facts, Step::Find, Reply::No) {
        seq![Step::CheckTarget, Step::CheckHead, Step::CheckSource, Step::CheckBranchName]
    } else {
        rebase_plan(facts)
    }
}

/// A run looks at the source of its worktree and then for a session.
pub proof fn runs_look_for_a_session(setting: Setting, facts: Map<Step, Reply>, at: int)
    requires
        setting.operation == Operation::Run,
        is_introduced(setting, facts),
        !says(facts, Step::Find, Reply::Other),
        has_come_to(facts, source_plan(facts).push(Step::FindSession), at),
        at <= source_plan(facts).len(),
    ensures
        steps::next_step(setting, facts) == due(
            setting,
            facts,
            source_plan(facts).push(Step::FindSession),
            at,
            Step::FindSession,
        ),
{
    lemma_introduced(setting, facts);
    let plan = source_plan(facts).push(Step::FindSession);
    lemma_places(facts, plan, at);
}

/// A run has looked for a session.
pub open spec fn has_looked(setting: Setting, facts: Map<Step, Reply>) -> bool {
    &&& setting.operation == Operation::Run
    &&& is_introduced(setting, facts)
    &&& !says(facts, Step::Find, Reply::Other)
    &&& has_come_to(
        facts,
        source_plan(facts).push(Step::FindSession),
        source_plan(facts).len() as int + 1,
    )
}

proof fn lemma_looked(setting: Setting, facts: Map<Step, Reply>)
    requires
        has_looked(setting, facts),
    ensures
        well(facts, Step::FindSession),
        steps::next_step(setting, facts) == steps::located_step(setting, facts),
{
    lemma_introduced(setting, facts);
    let plan = source_plan(facts).push(Step::FindSession);
    lemma_places(facts, plan, plan.len() as int);
}

/// How a run reuses a session.
pub open spec fn reuse_plan(setting: Setting, facts: Map<Step, Reply>) -> Seq<Step> {
    seq![Step::FindState, Step::ReadState, Step::CheckMetadata] + pane_plan(facts) + (
    if setting.attach {
        seq![Step::Adorn, Step::Attach]
    } else {
        seq![Step::Adorn]
    })
}

/// A run that finds a live session reuses it: it sees that the session is what it
/// should be and its agent alive, gives it its looks, and attaches to it if that was
/// asked for. Then it ends well. A session without a record is refused.
pub proof fn runs_reuse_a_live_session(setting: Setting, facts: Map<Step, Reply>, at: int)
    requires
        has_looked(setting, facts),
        !says(facts, Step::FindSession, Reply::No),
        has_come_to(facts, reuse_plan(setting, facts), at),
    ensures
        steps::next_step(setting, facts) == (if says(facts, Step::FindState, Reply::No) {
            Step::Finish(Outcome::Unmanaged)
        } else {
            due(setting, facts, reuse_plan(setting, facts), at, Step::Finish(Outcome::Done))
        }),
{
    lemma_looked(setting, facts);
    let plan = reuse_plan(setting, facts);
    lemma_places(facts, plan, at);
}

/// Without a session, a run leaves a worktree that is on no branch alone.
pub proof fn runs_start_nothing_off_a_branch(setting: Setting, facts: Map<Step, Reply>)
    requires
        has_looked(setting, facts),
        says(facts, Step::FindSession, Reply::No),
        says(facts, Step::Find, Reply::Without),
    ensures
        steps::next_step(setting, facts) == Step::Finish(Outcome::WrongBranch),
{
    lemma_looked(setting, facts);
}

/// How a run comes to an agent: a record that is left over has to match and is
/// removed, the configuration says which agent it is, or a person does, and its
/// command has to be available.
pub open spec fn agent_plan(facts: Map<Step, Reply>) -> Seq<Step> {
    (if says(facts, Step::FindStale, Reply::No) {
        seq![Step::FindStale]
    } else {
        seq![Step::FindStale, Step::ReadState, Step::RemoveStale]
    }) + (if says(facts, Step::LoadConfig, Reply::Without) {
        seq![Step::LoadConfig, Step::PickAgent]
    } else {
        seq![Step::LoadConfig]
    }) + seq![Step::CheckCommand]
}

/// A run without a session decides on an agent, and goes on to start it.
pub proof fn runs_decide_on_an_agent(setting: Setting, facts: Map<Step, Reply>, at: int)
    requires
        has_looked(setting, facts),
        says(facts, Step::FindSession, Reply::No),
        !says(facts, Step::Find, Reply::Without),
        has_come_to(facts, agent_plan(facts), at),
        at < agent_plan(facts).len(),
    ensures
        steps::next_step(setting, facts) == due(
            setting,
            facts,
            agent_plan(facts),
            at,
            Step::Prepare,
        ),
{
    lemma_looked(setting, facts);
    let plan = agent_plan(facts);
    lemma_places(facts, plan, at);
}

/// A run has decided on its agent.
pub open spec fn has_decided(setting: Setting, facts: Map<Step, Reply>) -> bool {
    &&& has_looked(setting, facts)
    &&& says(facts, Step::FindSession, Reply::No)
    &&& !says(facts, Step::Find, Reply::Without)
    &&& has_come_to(facts, agent_plan(facts), agent_plan(facts).len() as int)
}

proof fn lemma_decided(setting: Setting, facts: Map<Step, Reply>)
    requires
        has_decided(setting, facts),
    ensures
        steps::next_step(setting, facts) == steps::command_step(setting, facts),
        well(facts, Step::CheckCommand),
{
    lemma_looked(setting, facts);
    let plan = agent_plan(facts);
    lemma_places(facts, plan, plan.len() as int);
}

/// How a run starts an agent: in a worktree that is created if there is none, with a
/// record that is written before and completed behind the start.
pub open spec fn launch_plan(setting: Setting, facts: Map<Step, Reply>) -> Seq<Step> {
    (if says(facts, Step::Find, Reply::No) {
        seq![Step::Prepare, Step::MakeParent, Step::AddWorktree]
    } else {
        seq![Step::Prepare]
    }) + seq![Step::WriteState, Step::CreateSession, Step::CheckStarted] + (if says(
        facts,
        Step::CreateSession,
        Reply::Yes,
    ) {
        seq![Step::CheckAgent]
    } else {
        seq![]
    }) + seq![Step::WritePane, Step::CheckRecorded, Step::Configure, Step::CheckConfigured] + (
    if setting.attach {
        seq![Step::AttachAgent]
    } else {
        seq![]
    })
}

/// A step of a start that leaves something to clean up if it does not go well.
pub open spec fn leaves_something(step: Step) -> bool {
    ||| step == Step::CreateSession
    ||| step == Step::CheckStarted
    ||| step == Step::CheckAgent
    ||| step == Step::WritePane
    ||| step == Step::CheckRecorded
    ||| step == Step::Configure
    ||| step == Step::CheckConfigured
}

/// A run that has decided on its agent creates the worktree if there is none, records
/// the session, starts it, sees that it is there and its agent alive, records its
/// pane, configures it, and attaches to it if that was asked for. Then it ends well.
pub proof fn runs_start_the_agent(setting: Setting, facts: Map<Step, Reply>, at: int)
    requires
        has_decided(setting, facts),
        has_come_to(facts, launch_plan(setting, facts), at),
        at < launch_plan(setting, facts).len() && facts.dom().contains(
            launch_plan(setting, facts)[at],
        ) ==> !leaves_something(launch_plan(setting, facts)[at]),
    ensures
        steps::next_step(setting, facts) == due(
            setting,
            facts,
            launch_plan(setting, facts),
            at,
            Step::Finish(Outcome::Done),
        ),
{
    lemma_decided(setting, facts);
    lemma_places(facts, launch_plan(setting, facts), at);
}

/// What is cleaned up behind a start that did not go well, one after the other, and
/// how the run ends then.
pub open spec fn cleanup_plan(facts: Map<Step, Reply>, step: Step) -> (Seq<Step>, Outcome) {
    if step == Step::CheckRecorded || step == Step::CheckConfigured {
        (seq![Step::RemoveState], Outcome::Exited)
    } else if step == Step::CheckStarted && says(facts, step, Reply::No) {
        (seq![Step::DropState], Outcome::Exited)
    } else if step == Step::CheckAgent && says(facts, step, Reply::No) {
        (seq![Step::DropState, Step::DropSession], Outcome::DeadPane)
    } else {
        (seq![Step::DropState, Step::DropSession], Outcome::Reported)
    }
}

/// A start that did not go well is cleaned up. Of a session that is gone the record
/// is removed, which has to go well once it names a pane; otherwise record and
/// session are dropped as far as that is possible, whatever comes of it.
pub proof fn starts_are_cleaned_up(setting: Setting, facts: Map<Step, Reply>, at: int, done: int)
    requires
        has_decided(setting, facts),
        has_come_to(facts, launch_plan(setting, facts), at),
        at < launch_plan(setting, facts).len(),
        ({
            let step = launch_plan(setting, facts)[at];
            let plan = cleanup_plan(facts, step).0;
            &&& facts.dom().contains(step)
            &&& leaves_something(step) && step != Step::Configure
            &&& step == Step::CheckRecorded || step == Step::CheckConfigured ==> says(
                facts,
                step,
                Reply::No,
            )
            &&& 0 <= done <= plan.len()
            &&& forall|j: int| 0 <= j < done ==> facts.dom().contains(#[trigger] plan[j])
            &&& done < plan.len() ==> !facts.dom().contains(plan[done])
        }),
    ensures
        ({
            let step = launch_plan(setting, facts)[at];
            let (plan, outcome) = cleanup_plan(facts, step);
            steps::next_step(setting, facts) == (if done < plan.len() {
                plan[done]
            } else if says(facts, Step::RemoveState, Reply::Failed) && plan[0]
                == Step::RemoveState {
                Step::Finish(Outcome::Reported)
            } else {
                Step::Finish(outcome)
            })
        }),
{
    lemma_decided(setting, facts);
    lemma_places(facts, launch_plan(setting, facts), at);
    let plan = cleanup_plan(facts, launch_plan(setting, facts)[at]).0;
    assert(done > 0 ==> facts.dom().contains(plan[0]));
    assert(done > 1 ==> facts.dom().contains(plan[1]));
    assert(done == 0 || done == 1 || done == 2);
}

/// If it cannot be told whether a session is still there, a run reports that.
pub proof fn unanswered_checks_are_reported(setting: Setting, facts: Map<Step, Reply>, at: int)
    requires
        has_decided(setting, facts),
        has_come_to(facts, launch_plan(setting, facts), at),
        at < launch_plan(setting, facts).len(),
        ({
            let step = launch_plan(setting, facts)[at];
            &&& step == Step::CheckRecorded || step == Step::CheckConfigured
            &&& says(facts, step, Reply::Failed)
        }),
    ensures
        steps::next_step(setting, facts) == Step::Finish(Outcome::Reported),
{
    lemma_decided(setting, facts);
    lemma_places(facts, launch_plan(setting, facts), at);
}

/// A session that cannot be configured is looked for; if it is there, it is stopped;
/// then its record is removed. The run ends with the failure to configure, or with
/// what could not be cleaned up, or, if the session was gone, with that.
pub proof fn unconfigured_sessions_are_cleaned_up(
    setting: Setting,
    facts: Map<Step, Reply>,
    at: int,
)
    requires
        has_decided(setting, facts),
        has_come_to(facts, launch_plan(setting, facts), at),
        at < launch_plan(setting, facts).len(),
        launch_plan(setting, facts)[at] == Step::Configure,
        facts.dom().contains(Step::Configure),
    ensures
        ({
            let next = steps::next_step(setting, facts);
            let gone = says(facts, Step::CheckFailed, Reply::No);
            if !facts.dom().contains(Step::CheckFailed) {
                next == Step::CheckFailed
            } else if says(facts, Step::CheckFailed, Reply::Failed) {
                next == Step::Finish(Outcome::UncheckedCleanup)
            } else if !gone && !facts.dom().contains(Step::KillFailed) {
                next == Step::KillFailed
            } else if !gone && says(facts, Step::KillFailed, Reply::Failed) {
                next == Step::Finish(Outcome::FailedCleanup)
            } else if !facts.dom().contains(Step::RemoveFailed) {
                next == Step::RemoveFailed
            } else if says(facts, Step::RemoveFailed, Reply::Failed) {
                next == Step::Finish(Outcome::LeftMetadata)
            } else {
                next == Step::Finish(
                    if gone {
                        Outcome::Exited
                    } else {
                        Outcome::Reported
                    },
                )
            }
        }),
{
    lemma_decided(setting, facts);
    lemma_places(facts, launch_plan(setting, facts), at);
}

/// What the status of a session is found out by.
pub open spec fn status_plan(facts: Map<Step, Reply>) -> Seq<Step> {
    if says(facts, Step::FindState, Reply::No) {
        seq![Step::FindState]
    } else if says(facts, Step::FindSession, Reply::No) {
        seq![Step::FindState, Step::FindSession]
    } else {
        seq![Step::FindState, Step::FindSession, Step::ReadState, Step::CheckMetadata]
    }
}

/// The status of a session is found out from its record, from the session itself and
/// from the pane of its agent, as far as there are any. A pane that cannot be found
/// or asked does not keep it from ending well.
pub proof fn statuses_are_found_out(setting: Setting, facts: Map<Step, Reply>, at: int)
    requires
        setting.operation == Operation::Status,
        has_come_to(facts, status_plan(facts), at),
    ensures
        ({
            let next = steps::next_step(setting, facts);
            let plan = status_plan(facts);
            let recorded = says(facts, Step::ReadState, Reply::Yes);
            if at < plan.len() || plan.len() < 4 {
                next == due(setting, facts, plan, at, Step::Finish(Outcome::Done))
            } else if !recorded && !facts.dom().contains(Step::FindPane) {
                next == Step::FindPane
            } else if (recorded || !says(facts, Step::FindPane, Reply::No) && !says(
                facts,
                Step::FindPane,
                Reply::Failed,
            )) && !facts.dom().contains(Step::CheckPane) {
                next == Step::CheckPane
            } else {
                next == Step::Finish(Outcome::Done)
            }
        }),
{
    reveal(steps::next_step);
    let plan = status_plan(facts);
    lemma_places(facts, plan, at);
}

/// An operation on a named worktree begins with these steps, one after the other, and
/// ends with the failure of the first that fails.
pub proof fn beginnings_take_their_steps(setting: Setting, facts: Map<Step, Reply>)
    requires
        setting.operation != Operation::Status,
        setting.valid_name,
        !(facts.dom().contains(Step::Find) && facts[Step::Find] != Reply::Failed),
    ensures
        ({
            let next = steps::next_step(setting, facts);
            let no = |s: Step| facts.dom().contains(s) && facts[s] == Reply::No;
            let stuck = |s: Step| !facts.dom().contains(s) || facts[s] == Reply::Failed;
            let at = |s: Step|
                if !facts.dom().contains(s) {
                    s
                } else {
                    Step::Finish(Outcome::Reported)
                };
            let end = |outcome: Outcome| Step::Finish(outcome);
            next == (if setting.operation != Operation::Edit && setting.operation != Operation::Path && stuck(Step::EnsureAvailable) {
                at(Step::EnsureAvailable)
            } else if stuck(Step::Locate) {
                at(Step::Locate)
            } else if setting.operation != Operation::Edit && setting.operation != Operation::Path && stuck(Step::Lock) {
                at(Step::Lock)
            } else if stuck(Step::Contain) {
                at(Step::Contain)
            } else if setting.operation == Operation::Prompt && stuck(Step::CheckDirectory) {
                at(Step::CheckDirectory)
            } else if setting.operation == Operation::Prompt && no(Step::CheckDirectory) {
                end(Outcome::Missing)
            } else {
                at(Step::Find)
            })
        }),
{
    reveal(steps::next_step);
}

/// Attaching to a worktree on its branch looks at the session, at its record, at what it
/// says of itself and at its pane, and then attaches to it; that done, it ends well.
pub proof fn attaching_attaches(setting: Setting, facts: Map<Step, Reply>)
    requires
        setting.operation == Operation::Attach,
        setting.valid_name,
        ({
            let fine = |s: Step| facts.dom().contains(s) && facts[s] != Reply::Failed;
            &&& fine(Step::EnsureAvailable) && fine(Step::Locate) && fine(Step::Lock)
            &&& fine(Step::Contain)
            &&& facts.dom().contains(Step::Find) && facts[Step::Find] == Reply::Yes
        }),
    ensures
        ({
            let next = steps::next_step(setting, facts);
            let no = |s: Step| facts.dom().contains(s) && facts[s] == Reply::No;
            let yes = |s: Step| facts.dom().contains(s) && facts[s] == Reply::Yes;
            let stuck = |s: Step| !facts.dom().contains(s) || facts[s] == Reply::Failed;
            let at = |s: Step|
                if !facts.dom().contains(s) {
                    s
                } else {
                    Step::Finish(Outcome::Reported)
                };
            let end = |outcome: Outcome| Step::Finish(outcome);
            next == (if stuck(Step::FindSession) {
                at(Step::FindSession)
            } else if stuck(Step::FindState) {
                at(Step::FindState)
            } else if no(Step::FindState) && no(Step::FindSession) {
                end(Outcome::NoSession)
            } else if no(Step::FindState) {
                end(Outcome::UnmanagedAgent)
            } else if stuck(Step::ReadState) {
                at(Step::ReadState)
            } else if no(Step::ReadState) {
                end(Outcome::AgentMismatch)
            } else if no(Step::FindSession) {
                end(Outcome::NotRunning)
            } else if stuck(Step::CheckMetadata) {
                at(Step::CheckMetadata)
            } else if yes(Step::ReadState) && stuck(Step::CheckPane) {
                at(Step::CheckPane)
            } else if yes(Step::ReadState) && no(Step::CheckPane) {
                end(Outcome::DeadPane)
            } else if !yes(Step::ReadState) && stuck(Step::FindPane) {
                at(Step::FindPane)
            } else if !yes(Step::ReadState) && !no(Step::FindPane) && stuck(Step::CheckPane) {
                at(Step::CheckPane)
            } else if !yes(Step::ReadState) && !no(Step::FindPane) && no(Step::CheckPane) {
                end(Outcome::DeadPane)
            } else if stuck(Step::Attach) {
                at(Step::Attach)
            } else {
                end(Outcome::Done)
            })
        }),
{
    reveal(steps::next_step);
}

/// Attaching to a worktree on no branch does the same if its own branch is being rebased,
/// and otherwise refuses it.
pub proof fn attaching_attaches_during_a_rebase(setting: Setting, facts: Map<Step, Reply>)
    requires
        setting.operation == Operation::Attach,
        setting.valid_name,
        ({
            let fine = |s: Step| facts.dom().contains(s) && facts[s] != Reply::Failed;
            &&& fine(Step::EnsureAvailable) && fine(Step::Locate) && fine(Step::Lock)
            &&& fine(Step::Contain)
            &&& facts.dom().contains(Step::Find) && facts[Step::Find] == Reply::Without
        }),
    ensures
        ({
            let next = steps::next_step(setting, facts);
            let no = |s: Step| facts.dom().contains(s) && facts[s] == Reply::No;
            let yes = |s: Step| facts.dom().contains(s) && facts[s] == Reply::Yes;
            let stuck = |s: Step| !facts.dom().contains(s) || facts[s] == Reply::Failed;
            let at = |s: Step|
                if !facts.dom().contains(s) {
                    s
                } else {
                    Step::Finish(Outcome::Reported)
                };
            let end = |outcome: Outcome| Step::Finish(outcome);
            next == (if stuck(Step::CheckRebase) {
                at(Step::CheckRebase)
            } else if no(Step::CheckRebase) {
                end(Outcome::WrongBranch)
            } else if stuck(Step::FindSession) {
                at(Step::FindSession)
            } else if stuck(Step::FindState) {
                at(Step::FindState)
            } else if no(Step::FindState) && no(Step::FindSession) {
                end(Outcome::NoSession)
            } else if no(Step::FindState) {
                end(Outcome::UnmanagedAgent)
            } else if stuck(Step::ReadState) {
                at(Step::ReadState)
            } else if no(Step::ReadState) {
                end(Outcome::AgentMismatch)
            } else if no(Step::FindSession) {
                end(Outcome::NotRunning)
            } else if stuck(Step::CheckMetadata) {
                at(Step::CheckMetadata)
            } else if yes(Step::ReadState) && stuck(Step::CheckPane) {
                at(Step::CheckPane)
            } else if yes(Step::ReadState) && no(Step::CheckPane) {
                end(Outcome::DeadPane)
            } else if !yes(Step::ReadState) && stuck(Step::FindPane) {
                at(Step::FindPane)
            } else if !yes(Step::ReadState) && !no(Step::FindPane) && stuck(Step::CheckPane) {
                at(Step::CheckPane)
            } else if !yes(Step::ReadState) && !no(Step::FindPane) && no(Step::CheckPane) {
                end(Outcome::DeadPane)
            } else if stuck(Step::Attach) {
                at(Step::Attach)
            } else {
                end(Outcome::Done)
            })
        }),
{
    reveal(steps::next_step);
}

/// Prompting looks at the same and then delivers the prompt; that done, it ends well, and
/// a prompt that could not be delivered is reported as such.
pub proof fn prompting_delivers(setting: Setting, facts: Map<Step, Reply>)
    requires
        setting.operation == Operation::Prompt,
        setting.valid_name,
        ({
            let fine = |s: Step| facts.dom().contains(s) && facts[s] != Reply::Failed;
            &&& fine(Step::EnsureAvailable) && fine(Step::Locate) && fine(Step::Lock)
            &&& fine(Step::Contain)
            &&& fine(Step::CheckDirectory) && facts[Step::CheckDirectory] != Reply::No
            &&& facts.dom().contains(Step::Find) && facts[Step::Find] == Reply::Yes
        }),
    ensures
        ({
            let next = steps::next_step(setting, facts);
            let open = |s: Step| !facts.dom().contains(s);
            let no = |s: Step| facts.dom().contains(s) && facts[s] == Reply::No;
            let yes = |s: Step| facts.dom().contains(s) && facts[s] == Reply::Yes;
            let stuck = |s: Step| !facts.dom().contains(s) || facts[s] == Reply::Failed;
            let at = |s: Step|
                if !facts.dom().contains(s) {
                    s
                } else {
                    Step::Finish(Outcome::Reported)
                };
            let end = |outcome: Outcome| Step::Finish(outcome);
            next == (if stuck(Step::FindSession) {
                at(Step::FindSession)
            } else if stuck(Step::FindState) {
                at(Step::FindState)
            } else if no(Step::FindState) && no(Step::FindSession) {
                end(Outcome::NoSession)
            } else if no(Step::FindState) {
                end(Outcome::UnmanagedAgent)
            } else if stuck(Step::ReadState) {
                at(Step::ReadState)
            } else if no(Step::ReadState) {
                end(Outcome::AgentMismatch)
            } else if no(Step::FindSession) {
                end(Outcome::NotRunning)
            } else if stuck(Step::CheckMetadata) {
                at(Step::CheckMetadata)
            } else if yes(Step::ReadState) && stuck(Step::CheckPane) {
                at(Step::CheckPane)
            } else if yes(Step::ReadState) && no(Step::CheckPane) {
                end(Outcome::DeadPane)
            } else if !yes(Step::ReadState) && stuck(Step::FindPane) {
                at(Step::FindPane)
            } else if !yes(Step::ReadState) && !no(Step::FindPane) && stuck(Step::CheckPane) {
                at(Step::CheckPane)
            } else if !yes(Step::ReadState) && !no(Step::FindPane) && no(Step::CheckPane) {
                end(Outcome::DeadPane)
            } else if open(Step::Deliver) {
                Step::Deliver
            } else if stuck(Step::Deliver) {
                end(Outcome::Undelivered)
            } else {
                end(Outcome::Done)
            })
        }),
{
    reveal(steps::next_step);
}

/// Editing a worktree on its branch opens the editor, and asking for its path resolves it;
/// that done, they end well.
pub proof fn editing_and_telling(setting: Setting, facts: Map<Step, Reply>)
    requires
        setting.operation == Operation::Edit || setting.operation == Operation::Path,
        setting.valid_name,
        ({
            let fine = |s: Step| facts.dom().contains(s) && facts[s] != Reply::Failed;
            &&& fine(Step::Locate) && fine(Step::Contain)
            &&& facts.dom().contains(Step::Find) && facts[Step::Find] == Reply::Yes
        }),
    ensures
        ({
            let next = steps::next_step(setting, facts);
            let stuck = |s: Step| !facts.dom().contains(s) || facts[s] == Reply::Failed;
            let at = |s: Step|
                if !facts.dom().contains(s) {
                    s
                } else {
                    Step::Finish(Outcome::Reported)
                };
            let end = |outcome: Outcome| Step::Finish(outcome);
            next == (if setting.operation == Operation::Edit && stuck(Step::OpenEditor) {
                at(Step::OpenEditor)
            } else if setting.operation == Operation::Path && stuck(Step::ResolvePath) {
                at(Step::ResolvePath)
            } else {
                end(Outcome::Done)
            })
        }),
{
    reveal(steps::next_step);
}

/// Removing a worktree on its branch looks whether it is clean, unless that does not
/// matter; a live session has to be recorded and what it should be, and is stopped; without
/// one it goes on right away, as long as a record that is left belongs to the worktree.
/// Then worktree, branch and record go, and it ends well.
pub proof fn removing_removes(setting: Setting, facts: Map<Step, Reply>)
    requires
        setting.operation == Operation::Remove,
        setting.valid_name,
        ({
            let fine = |s: Step| facts.dom().contains(s) && facts[s] != Reply::Failed;
            &&& fine(Step::EnsureAvailable) && fine(Step::Locate) && fine(Step::Lock)
            &&& fine(Step::Contain)
            &&& facts.dom().contains(Step::Find) && facts[Step::Find] == Reply::Yes
        }),
    ensures
        ({
            let next = steps::next_step(setting, facts);
            let no = |s: Step| facts.dom().contains(s) && facts[s] == Reply::No;
            let stuck = |s: Step| !facts.dom().contains(s) || facts[s] == Reply::Failed;
            let at = |s: Step|
                if !facts.dom().contains(s) {
                    s
                } else {
                    Step::Finish(Outcome::Reported)
                };
            let end = |outcome: Outcome| Step::Finish(outcome);
            next == (if !setting.force && stuck(Step::CheckWorktree) {
                at(Step::CheckWorktree)
            } else if !setting.force && no(Step::CheckWorktree) {
                end(Outcome::DirtyWorktree)
            } else if stuck(Step::FindSession) {
                at(Step::FindSession)
            } else if stuck(Step::FindState) {
                at(Step::FindState)
            } else if no(Step::FindState) && !no(Step::FindSession) {
                end(Outcome::Unmanaged)
            } else if !no(Step::FindState) && stuck(Step::ReadState) {
                at(Step::ReadState)
            } else if !no(Step::FindState) && no(Step::ReadState) {
                end(Outcome::MetadataMismatch)
            } else if !no(Step::FindSession) && stuck(Step::CheckMetadata) {
                at(Step::CheckMetadata)
            } else if !no(Step::FindSession) && stuck(Step::StopSession) {
                at(Step::StopSession)
            } else if !no(Step::FindSession) && !setting.force && stuck(Step::RecheckWorktree) {
                at(Step::RecheckWorktree)
            } else if !no(Step::FindSession) && !setting.force && no(Step::RecheckWorktree) {
                end(Outcome::ChangedWhileStopping)
            } else if stuck(Step::FindRoot) {
                at(Step::FindRoot)
            } else if stuck(Step::RemoveWorktree) {
                at(Step::RemoveWorktree)
            } else if stuck(Step::DeleteBranch) {
                at(Step::DeleteBranch)
            } else if stuck(Step::FindStale) {
                at(Step::FindStale)
            } else if !no(Step::FindStale) && stuck(Step::RemoveState) {
                at(Step::RemoveState)
            } else {
                end(Outcome::Done)
            })
        }),
{
    reveal(steps::next_step);
}

/// A run looks whether a worktree that is to be created can be, and then for its session.
/// A live one is reused: seen to be what it should be, given its looks, and attached to if
/// that was asked for. That done, it ends well.
pub proof fn running_reuses_a_session(setting: Setting, facts: Map<Step, Reply>)
    requires
        setting.operation == Operation::Run,
        setting.valid_name,
        ({
            let fine = |s: Step| facts.dom().contains(s) && facts[s] != Reply::Failed;
            &&& fine(Step::EnsureAvailable) && fine(Step::Locate) && fine(Step::Lock)
            &&& fine(Step::Contain)
            &&& facts.dom().contains(Step::Find)
            &&& facts[Step::Find] == Reply::Yes || facts[Step::Find] == Reply::No
        }),
        !(facts.dom().contains(Step::FindSession) && facts[Step::FindSession] == Reply::No),
    ensures
        ({
            let next = steps::next_step(setting, facts);
            let no = |s: Step| facts.dom().contains(s) && facts[s] == Reply::No;
            let yes = |s: Step| facts.dom().contains(s) && facts[s] == Reply::Yes;
            let stuck = |s: Step| !facts.dom().contains(s) || facts[s] == Reply::Failed;
            let at = |s: Step|
                if !facts.dom().contains(s) {
                    s
                } else {
                    Step::Finish(Outcome::Reported)
                };
            let end = |outcome: Outcome| Step::Finish(outcome);
            next == (if no(Step::Find) && stuck(Step::CheckTarget) {
                at(Step::CheckTarget)
            } else if no(Step::Find) && !no(Step::CheckTarget) {
                end(Outcome::Occupied)
            } else if no(Step::Find) && stuck(Step::CheckHead) {
                at(Step::CheckHead)
            } else if no(Step::Find) && stuck(Step::CheckSource) {
                at(Step::CheckSource)
            } else if no(Step::Find) && no(Step::CheckSource) {
                end(Outcome::DirtySource)
            } else if no(Step::Find) && stuck(Step::CheckBranchName) {
                at(Step::CheckBranchName)
            } else if stuck(Step::FindSession) {
                at(Step::FindSession)
            } else if stuck(Step::FindState) {
                at(Step::FindState)
            } else if no(Step::FindState) {
                end(Outcome::Unmanaged)
            } else if stuck(Step::ReadState) {
                at(Step::ReadState)
            } else if no(Step::ReadState) {
                end(Outcome::Mismatch)
            } else if stuck(Step::CheckMetadata) {
                at(Step::CheckMetadata)
            } else if yes(Step::ReadState) && stuck(Step::CheckPane) {
                at(Step::CheckPane)
            } else if yes(Step::ReadState) && no(Step::CheckPane) {
                end(Outcome::DeadPane)
            } else if !yes(Step::ReadState) && stuck(Step::FindPane) {
                at(Step::FindPane)
            } else if !yes(Step::ReadState) && !no(Step::FindPane) && stuck(Step::CheckPane) {
                at(Step::CheckPane)
            } else if !yes(Step::ReadState) && !no(Step::FindPane) && no(Step::CheckPane) {
                end(Outcome::DeadPane)
            } else if stuck(Step::Adorn) {
                at(Step::Adorn)
            } else if setting.attach && stuck(Step::Attach) {
                at(Step::Attach)
            } else {
                end(Outcome::Done)
            })
        }),
{
    reveal(steps::next_step);
}

/// Without a session, a run clears away a record that is left over, decides on an agent,
/// sees that its command is available, creates the worktree if there is none, records the
/// session and starts it. What it decides on is what the configuration says, or a person.
pub proof fn running_starts_a_session(setting: Setting, facts: Map<Step, Reply>)
    requires
        setting.operation == Operation::Run,
        setting.valid_name,
        ({
            let fine = |s: Step| facts.dom().contains(s) && facts[s] != Reply::Failed;
            &&& fine(Step::EnsureAvailable) && fine(Step::Locate) && fine(Step::Lock)
            &&& fine(Step::Contain)
            &&& facts.dom().contains(Step::Find)
            &&& facts[Step::Find] == Reply::Yes || facts[Step::Find] == Reply::No
        }),
        facts.dom().contains(Step::FindSession) && facts[Step::FindSession] == Reply::No,
        !facts.dom().contains(Step::CreateSession),
    ensures
        ({
            let next = steps::next_step(setting, facts);
            let no = |s: Step| facts.dom().contains(s) && facts[s] == Reply::No;
            let stuck = |s: Step| !facts.dom().contains(s) || facts[s] == Reply::Failed;
            let at = |s: Step|
                if !facts.dom().contains(s) {
                    s
                } else {
                    Step::Finish(Outcome::Reported)
                };
            let end = |outcome: Outcome| Step::Finish(outcome);
            next == (if no(Step::Find) && stuck(Step::CheckTarget) {
                at(Step::CheckTarget)
            } else if no(Step::Find) && !no(Step::CheckTarget) {
                end(Outcome::Occupied)
            } else if no(Step::Find) && stuck(Step::CheckHead) {
                at(Step::CheckHead)
            } else if no(Step::Find) && stuck(Step::CheckSource) {
                at(Step::CheckSource)
            } else if no(Step::Find) && no(Step::CheckSource) {
                end(Outcome::DirtySource)
            } else if no(Step::Find) && stuck(Step::CheckBranchName) {
                at(Step::CheckBranchName)
            } else if stuck(Step::FindStale) {
                at(Step::FindStale)
            } else if !no(Step::FindStale) && stuck(Step::ReadState) {
                at(Step::ReadState)
            } else if !no(Step::FindStale) && no(Step::ReadState) {
                end(Outcome::StaleMismatch)
            } else if !no(Step::FindStale) && stuck(Step::RemoveStale) {
                at(Step::RemoveStale)
            } else if stuck(Step::LoadConfig) {
                at(Step::LoadConfig)
            } else if no(Step::LoadConfig) {
                end(Outcome::UnknownAgent)
            } else if facts[Step::LoadConfig] == Reply::Other {
                end(Outcome::SelectionUnavailable)
            } else if facts[Step::LoadConfig] == Reply::Without && stuck(Step::PickAgent) {
                at(Step::PickAgent)
            } else if stuck(Step::CheckCommand) {
                at(Step::CheckCommand)
            } else if no(Step::CheckCommand) {
                end(Outcome::CommandMissing)
            } else if stuck(Step::Prepare) {
                at(Step::Prepare)
            } else if no(Step::Find) && stuck(Step::MakeParent) {
                at(Step::MakeParent)
            } else if no(Step::Find) && stuck(Step::AddWorktree) {
                at(Step::AddWorktree)
            } else if stuck(Step::WriteState) {
                at(Step::WriteState)
            } else {
                Step::CreateSession
            })
        }),
{
    reveal(steps::next_step);
}

/// A session that was started is seen to be there with its agent alive, recorded with its
/// pane, configured, seen to be there still, and attached to if that was asked for. That
/// done, the run ends well; and whatever did not go well is cleaned up before it ends.
pub proof fn starting_is_seen_to_its_end(setting: Setting, facts: Map<Step, Reply>)
    requires
        setting.operation == Operation::Run,
        setting.valid_name,
        ({
            let fine = |s: Step| facts.dom().contains(s) && facts[s] != Reply::Failed;
            &&& fine(Step::EnsureAvailable) && fine(Step::Locate) && fine(Step::Lock)
            &&& fine(Step::Contain)
            &&& facts.dom().contains(Step::Find)
            &&& facts[Step::Find] == Reply::Yes || facts[Step::Find] == Reply::No && {
                &&& facts.dom().contains(Step::CheckTarget)
                &&& facts[Step::CheckTarget] == Reply::No
                &&& fine(Step::CheckHead) && fine(Step::CheckSource)
                &&& facts[Step::CheckSource] != Reply::No
                &&& fine(Step::CheckBranchName) && fine(Step::MakeParent)
                &&& fine(Step::AddWorktree)
            }
            &&& facts.dom().contains(Step::FindSession) && facts[Step::FindSession] == Reply::No
            &&& fine(Step::FindStale)
            &&& facts[Step::FindStale] != Reply::No ==> fine(Step::ReadState)
                && facts[Step::ReadState] != Reply::No && fine(Step::RemoveStale)
            &&& facts.dom().contains(Step::LoadConfig)
            &&& facts[Step::LoadConfig] == Reply::Yes || facts[Step::LoadConfig] == Reply::Without
                && fine(Step::PickAgent)
            &&& fine(Step::CheckCommand) && facts[Step::CheckCommand] != Reply::No
            &&& fine(Step::Prepare) && fine(Step::WriteState)
        }),
        facts.dom().contains(Step::CreateSession),
    ensures
        ({
            let next = steps::next_step(setting, facts);
            let open = |s: Step| !facts.dom().contains(s);
            let no = |s: Step| facts.dom().contains(s) && facts[s] == Reply::No;
            let yes = |s: Step| facts.dom().contains(s) && facts[s] == Reply::Yes;
            let stuck = |s: Step| !facts.dom().contains(s) || facts[s] == Reply::Failed;
            let at = |s: Step|
                if !facts.dom().contains(s) {
                    s
                } else {
                    Step::Finish(Outcome::Reported)
                };
            let end = |outcome: Outcome| Step::Finish(outcome);
            next == (if stuck(Step::CreateSession) && open(Step::DropState) {
                Step::DropState
            } else if stuck(Step::CreateSession) && open(Step::DropSession) {
                Step::DropSession
            } else if stuck(Step::CreateSession) {
                end(Outcome::Reported)
            } else if open(Step::CheckStarted) {
                Step::CheckStarted
            } else if stuck(Step::CheckStarted) && open(Step::DropState) {
                Step::DropState
            } else if stuck(Step::CheckStarted) && open(Step::DropSession) {
                Step::DropSession
            } else if stuck(Step::CheckStarted) {
                end(Outcome::Reported)
            } else if no(Step::CheckStarted) && open(Step::DropState) {
                Step::DropState
            } else if no(Step::CheckStarted) {
                end(Outcome::Exited)
            } else if yes(Step::CreateSession) && open(Step::CheckAgent) {
                Step::CheckAgent
            } else if yes(Step::CreateSession) && stuck(Step::CheckAgent) && open(Step::DropState) {
                Step::DropState
            } else if yes(Step::CreateSession) && stuck(Step::CheckAgent) && open(Step::DropSession) {
                Step::DropSession
            } else if yes(Step::CreateSession) && stuck(Step::CheckAgent) {
                end(Outcome::Reported)
            } else if yes(Step::CreateSession) && no(Step::CheckAgent) && open(Step::DropState) {
                Step::DropState
            } else if yes(Step::CreateSession) && no(Step::CheckAgent) && open(Step::DropSession) {
                Step::DropSession
            } else if yes(Step::CreateSession) && no(Step::CheckAgent) {
                end(Outcome::DeadPane)
            } else if open(Step::WritePane) {
                Step::WritePane
            } else if stuck(Step::WritePane) && open(Step::DropState) {
                Step::DropState
            } else if stuck(Step::WritePane) && open(Step::DropSession) {
                Step::DropSession
            } else if stuck(Step::WritePane) {
                end(Outcome::Reported)
            } else if stuck(Step::CheckRecorded) {
                at(Step::CheckRecorded)
            } else if no(Step::CheckRecorded) && stuck(Step::RemoveState) {
                at(Step::RemoveState)
            } else if no(Step::CheckRecorded) {
                end(Outcome::Exited)
            } else if open(Step::Configure) {
                Step::Configure
            } else if stuck(Step::Configure) && open(Step::CheckFailed) {
                Step::CheckFailed
            } else if stuck(Step::Configure) && stuck(Step::CheckFailed) {
                end(Outcome::UncheckedCleanup)
            } else if stuck(Step::Configure) && !no(Step::CheckFailed) && open(Step::KillFailed) {
                Step::KillFailed
            } else if stuck(Step::Configure) && !no(Step::CheckFailed) && stuck(Step::KillFailed) {
                end(Outcome::FailedCleanup)
            } else if stuck(Step::Configure) && open(Step::RemoveFailed) {
                Step::RemoveFailed
            } else if stuck(Step::Configure) && stuck(Step::RemoveFailed) {
                end(Outcome::LeftMetadata)
            } else if stuck(Step::Configure) && no(Step::CheckFailed) {
                end(Outcome::Exited)
            } else if stuck(Step::Configure) {
                end(Outcome::Reported)
            } else if stuck(Step::CheckConfigured) {
                at(Step::CheckConfigured)
            } else if no(Step::CheckConfigured) && stuck(Step::RemoveState) {
                at(Step::RemoveState)
            } else if no(Step::CheckConfigured) {
                end(Outcome::Exited)
            } else if setting.attach && stuck(Step::AttachAgent) {
                at(Step::AttachAgent)
            } else {
                end(Outcome::Done)
            })
        }),
{
    reveal(steps::next_step);
}

/// The status of a session is looked up in its record, in the session, in what it says of
/// itself and in its pane, as far as there are any.
pub proof fn statuses_are_looked_up(setting: Setting, facts: Map<Step, Reply>)
    requires
        setting.operation == Operation::Status,
    ensures
        ({
            let next = steps::next_step(setting, facts);
            let open = |s: Step| !facts.dom().contains(s);
            let no = |s: Step| facts.dom().contains(s) && facts[s] == Reply::No;
            let yes = |s: Step| facts.dom().contains(s) && facts[s] == Reply::Yes;
            let stuck = |s: Step| !facts.dom().contains(s) || facts[s] == Reply::Failed;
            let at = |s: Step|
                if !facts.dom().contains(s) {
                    s
                } else {
                    Step::Finish(Outcome::Reported)
                };
            let end = |outcome: Outcome| Step::Finish(outcome);
            next == (if stuck(Step::FindState) {
                at(Step::FindState)
            } else if no(Step::FindState) {
                end(Outcome::Done)
            } else if stuck(Step::FindSession) {
                at(Step::FindSession)
            } else if no(Step::FindSession) {
                end(Outcome::Done)
            } else if stuck(Step::ReadState) {
                at(Step::ReadState)
            } else if no(Step::ReadState) {
                end(Outcome::MetadataMismatch)
            } else if stuck(Step::CheckMetadata) {
                at(Step::CheckMetadata)
            } else if !yes(Step::ReadState) && open(Step::FindPane) {
                Step::FindPane
            } else if (yes(Step::ReadState) || !no(Step::FindPane) && !stuck(Step::FindPane)) && open(Step::CheckPane) {
                Step::CheckPane
            } else {
                end(Outcome::Done)
            })
        }),
{
    reveal(steps::next_step);
}

} // verus!
