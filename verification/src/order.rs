//! What the order of steps guarantees, whatever the steps show.

use vstd::prelude::*;

use crate::steps;
use crate::steps::{Operation, Reply, Setting, Step};

verus! {

/// A step that starts a process, or that changes a repository, a session or a
/// record.
pub open spec fn starts_or_changes(step: Step) -> bool {
    ||| starts(step)
    ||| step == Step::Adorn
    ||| stops(step)
    ||| step == Step::RemoveWorktree
    ||| step == Step::DeleteBranch
    ||| step == Step::RemoveState
    ||| step == Step::RemoveStale
    ||| step == Step::RemoveFailed
    ||| step == Step::DropState
}

/// A step on the way to a new session.
pub open spec fn starts(step: Step) -> bool {
    ||| step == Step::LoadConfig
    ||| step == Step::PickAgent
    ||| step == Step::Prepare
    ||| step == Step::MakeParent
    ||| step == Step::AddWorktree
    ||| step == Step::WriteState
    ||| step == Step::CreateSession
    ||| step == Step::WritePane
    ||| step == Step::Configure
    ||| step == Step::AttachAgent
}

/// A step that stops a session.
pub open spec fn stops(step: Step) -> bool {
    step == Step::StopSession || step == Step::KillFailed || step == Step::DropSession
}

/// A step that comes before the worktree itself is looked at.
pub open spec fn introductory(step: Step) -> bool {
    ||| step == Step::EnsureAvailable
    ||| step == Step::Locate
    ||| step == Step::Lock
    ||| step == Step::Contain
    ||| step is Finish
}

/// The session that is there belongs to the worktree, says so itself, and its
/// agent is alive.
pub open spec fn session_is_genuine(facts: Map<Step, Reply>) -> bool {
    &&& steps::passed(facts, Step::FindSession)
    &&& steps::passed(facts, Step::FindState)
    &&& steps::passed(facts, Step::ReadState)
    &&& steps::taken(facts, Step::CheckMetadata)
    &&& steps::passed(facts, Step::CheckPane) || (steps::reply(facts, Step::ReadState) != Some(
        Reply::Yes,
    ) && steps::reply(facts, Step::FindPane) == Some(Reply::No))
}

/// A number for every step.
pub open spec fn number(step: Step) -> int {
    match step {
        Step::EnsureAvailable => 0,
        Step::Locate => 1,
        Step::Lock => 2,
        Step::Contain => 3,
        Step::CheckDirectory => 4,
        Step::Find => 5,
        Step::CheckTarget => 6,
        Step::CheckRebase => 7,
        Step::CheckHead => 8,
        Step::CheckSource => 9,
        Step::CheckBranchName => 10,
        Step::FindSession => 11,
        Step::FindState => 12,
        Step::ReadState => 13,
        Step::CheckMetadata => 14,
        Step::FindPane => 15,
        Step::CheckPane => 16,
        Step::Adorn => 17,
        Step::Attach => 18,
        Step::FindStale => 19,
        Step::RemoveStale => 20,
        Step::LoadConfig => 21,
        Step::PickAgent => 22,
        Step::CheckCommand => 23,
        Step::Prepare => 24,
        Step::MakeParent => 25,
        Step::AddWorktree => 26,
        Step::WriteState => 27,
        Step::CreateSession => 28,
        Step::CheckStarted => 29,
        Step::CheckAgent => 30,
        Step::WritePane => 31,
        Step::CheckRecorded => 32,
        Step::Configure => 33,
        Step::CheckFailed => 34,
        Step::KillFailed => 35,
        Step::RemoveFailed => 36,
        Step::DropState => 37,
        Step::DropSession => 38,
        Step::RemoveState => 39,
        Step::CheckConfigured => 40,
        Step::AttachAgent => 41,
        Step::Deliver => 42,
        Step::OpenEditor => 43,
        Step::ResolvePath => 44,
        Step::CheckWorktree => 45,
        Step::StopSession => 46,
        Step::RecheckWorktree => 47,
        Step::FindRoot => 48,
        Step::RemoveWorktree => 49,
        Step::DeleteBranch => 50,
        Step::Finish(_) => 51,
    }
}

/// The next step is one that has not been taken yet.
pub proof fn every_step_is_taken_once(setting: Setting, facts: Map<Step, Reply>)
    ensures
        steps::next_step(setting, facts) is Finish || steps::reply(
            facts,
            steps::next_step(setting, facts),
        ) is None,
{
    reveal(steps::next_step);
}

/// A step that was replied to is known.
proof fn lemma_replies_are_known(replies: Seq<(Step, Reply)>, at: int)
    requires
        0 <= at < replies.len(),
    ensures
        steps::known(replies).dom().contains(replies[at].0),
    decreases replies.len(),
{
    if at < replies.len() - 1 {
        lemma_replies_are_known(replies.drop_last(), at);
    }
}

/// What comes first in a course is a course.
proof fn lemma_courses_begin_with_courses(setting: Setting, replies: Seq<(Step, Reply)>)
    requires
        steps::is_course(setting, replies),
        replies.len() > 0,
    ensures
        steps::is_course(setting, replies.drop_last()),
        replies.last().0 == steps::next_step(setting, steps::known(replies.drop_last())),
        !(replies.last().0 is Finish),
{
    let before = replies.drop_last();
    assert(replies.take(replies.len() - 1) =~= before);
    assert(replies.last() == replies[replies.len() - 1]);
    assert forall|i: int| 0 <= i < before.len() implies (#[trigger] before[i]).0
        == steps::next_step(setting, steps::known(before.take(i))) && !(before[i].0 is Finish) by {
        assert(before.take(i) =~= replies.take(i));
        assert(before[i] == replies[i]);
    }
}

/// In the course of an operation no step comes twice.
pub proof fn steps_are_not_repeated(setting: Setting, replies: Seq<(Step, Reply)>)
    requires
        steps::is_course(setting, replies),
    ensures
        forall|i: int, j: int|
            0 <= i < j < replies.len() ==> (#[trigger] replies[i]).0 != (#[trigger] replies[j]).0,
{
    assert forall|i: int, j: int| 0 <= i < j < replies.len() implies (#[trigger] replies[i]).0 != (
    #[trigger] replies[j]).0 by {
        let before = replies.take(j);
        lemma_replies_are_known(before, i);
        assert(before[i] == replies[i]);
        every_step_is_taken_once(setting, steps::known(before));
    }
}

/// Every operation comes to an end: its course is not longer than there are steps.
pub proof fn operations_come_to_an_end(setting: Setting, replies: Seq<(Step, Reply)>)
    requires
        steps::is_course(setting, replies),
    ensures
        replies.len() <= 51,
{
    steps_are_not_repeated(setting, replies);
    let numbers = replies.map_values(|reply: (Step, Reply)| number(reply.0));
    assert(numbers.no_duplicates()) by {
        assert forall|i: int, j: int|
            0 <= i < numbers.len() && 0 <= j < numbers.len() && i != j implies numbers[i]
            != numbers[j] by {
            if i < j {
                assert(replies[i].0 != replies[j].0);
            } else {
                assert(replies[j].0 != replies[i].0);
            }
        }
    }
    numbers.unique_seq_to_set();
    let all = vstd::set_lib::set_int_range(0, 51);
    vstd::set_lib::lemma_int_range(0, 51);
    assert(numbers.to_set().subset_of(all)) by {
        assert forall|n: int| numbers.to_set().contains(n) implies all.contains(n) by {
            let i = choose|i: int| 0 <= i < numbers.len() && numbers[i] == n;
            assert(!(replies[i].0 is Finish));
        }
    }
    vstd::set_lib::lemma_len_subset(numbers.to_set(), all);
}

/// An operation on a worktree goes on only if its name is accepted, the
/// worktree lies inside the managed directory and, for those that deal with
/// sessions, nothing else works on it.
pub proof fn worktrees_are_contained_and_locked(setting: Setting, facts: Map<Step, Reply>)
    requires
        setting.operation != Operation::Status,
        !introductory(steps::next_step(setting, facts)),
    ensures
        setting.valid_name,
        steps::taken(facts, Step::Contain),
        steps::uses_sessions(setting.operation) ==> steps::taken(facts, Step::Lock),
{
    reveal(steps::next_step);
}

/// A worktree is created only by a run, only where there was none, only from a
/// clean repository with a commit, under a name that a branch can have, and for
/// an agent that is decided and available.
pub proof fn worktrees_are_created_from_clean_sources(setting: Setting, facts: Map<Step, Reply>)
    requires
        steps::next_step(setting, facts) == Step::AddWorktree,
    ensures
        setting.operation == Operation::Run,
        steps::reply(facts, Step::Find) == Some(Reply::No),
        steps::reply(facts, Step::CheckTarget) == Some(Reply::No),
        steps::taken(facts, Step::CheckHead),
        steps::passed(facts, Step::CheckSource),
        steps::taken(facts, Step::CheckBranchName),
        steps::reply(facts, Step::FindSession) == Some(Reply::No),
        steps::passed(facts, Step::LoadConfig),
        steps::passed(facts, Step::CheckCommand),
{
    reveal(steps::next_step);
}

/// A repository with changes, asked to make a new worktree, is left alone.
pub proof fn dirty_sources_are_refused(setting: Setting, facts: Map<Step, Reply>)
    requires
        setting.operation == Operation::Run,
        steps::reply(facts, Step::Find) == Some(Reply::No),
        steps::reply(facts, Step::CheckSource) == Some(Reply::No),
    ensures
        !starts_or_changes(steps::next_step(setting, facts)),
{
    reveal(steps::next_step);
}

/// A live session is never replaced: no agent is selected, nothing is started
/// and nothing is stopped or removed.
pub proof fn live_sessions_are_reused(setting: Setting, facts: Map<Step, Reply>)
    requires
        setting.operation == Operation::Run,
        steps::reply(facts, Step::FindSession) is Some,
        steps::reply(facts, Step::FindSession) != Some(Reply::No),
    ensures
        starts_or_changes(steps::next_step(setting, facts)) ==> steps::next_step(setting, facts)
            == Step::Adorn,
{
    reveal(steps::next_step);
}

/// A worktree has at most one session: one is started only where none was found.
pub proof fn sessions_are_started_once(setting: Setting, facts: Map<Step, Reply>)
    requires
        steps::next_step(setting, facts) == Step::CreateSession,
    ensures
        setting.operation == Operation::Run,
        steps::reply(facts, Step::FindSession) == Some(Reply::No),
        steps::taken(facts, Step::WriteState),
{
    reveal(steps::next_step);
}

/// A session that was there is attached to, adorned or sent a prompt only if it
/// is genuine.
pub proof fn only_genuine_sessions_are_used(setting: Setting, facts: Map<Step, Reply>)
    requires
        ({
            let step = steps::next_step(setting, facts);
            step == Step::Attach || step == Step::Adorn || step == Step::Deliver
        }),
    ensures
        session_is_genuine(facts),
        steps::next_step(setting, facts) == Step::Deliver ==> setting.operation
            == Operation::Prompt,
        steps::next_step(setting, facts) == Step::Attach ==> setting.operation == Operation::Attach
            || (setting.operation == Operation::Run && setting.attach && steps::taken(
            facts,
            Step::Adorn,
        )),
{
    reveal(steps::next_step);
}

/// A session that was started is attached to only if that was asked for, and
/// only once it is recorded, configured and still there.
pub proof fn started_sessions_are_attached_last(setting: Setting, facts: Map<Step, Reply>)
    requires
        steps::next_step(setting, facts) == Step::AttachAgent,
    ensures
        setting.operation == Operation::Run,
        setting.attach,
        steps::passed(facts, Step::CheckStarted),
        steps::reply(facts, Step::CreateSession) == Some(Reply::Yes) ==> steps::passed(
            facts,
            Step::CheckAgent,
        ),
        steps::taken(facts, Step::WritePane),
        steps::passed(facts, Step::CheckRecorded),
        steps::taken(facts, Step::Configure),
        steps::passed(facts, Step::CheckConfigured),
{
    reveal(steps::next_step);
}

/// A run that is not to attach never does.
pub proof fn detached_runs_do_not_attach(setting: Setting, facts: Map<Step, Reply>)
    requires
        setting.operation == Operation::Run,
        !setting.attach,
    ensures
        steps::next_step(setting, facts) != Step::Attach,
        steps::next_step(setting, facts) != Step::AttachAgent,
{
    reveal(steps::next_step);
}

/// Everything but a run and a removal leaves repository, sessions and records as
/// they are and starts nothing; a prompt does not attach either.
pub proof fn other_operations_change_nothing(setting: Setting, facts: Map<Step, Reply>)
    requires
        setting.operation != Operation::Run,
        setting.operation != Operation::Remove,
    ensures
        !starts_or_changes(steps::next_step(setting, facts)),
        setting.operation != Operation::Attach ==> steps::next_step(setting, facts)
            != Step::Attach,
{
    reveal(steps::next_step);
}

/// A removal starts nothing and attaches to nothing.
pub proof fn removals_start_nothing(setting: Setting, facts: Map<Step, Reply>)
    requires
        setting.operation == Operation::Remove,
    ensures
        !starts(steps::next_step(setting, facts)),
        steps::next_step(setting, facts) != Step::Attach,
        steps::next_step(setting, facts) != Step::Adorn,
{
    reveal(steps::next_step);
}

/// A worktree that is on no branch, or on another one, gets no new session, and
/// is never removed. On no branch, it can be attached to while its own branch is
/// being rebased and its session is alive.
pub proof fn detached_worktrees_are_only_reattached(setting: Setting, facts: Map<Step, Reply>)
    requires
        setting.operation != Operation::Status,
        steps::reply(facts, Step::Find) == Some(Reply::Without) || steps::reply(facts, Step::Find)
            == Some(Reply::Other),
    ensures
        starts_or_changes(steps::next_step(setting, facts)) ==> steps::next_step(setting, facts)
            == Step::Adorn,
        ({
            let step = steps::next_step(setting, facts);
            step == Step::Attach || step == Step::Adorn ==> steps::reply(facts, Step::Find)
                == Some(Reply::Without) && steps::passed(facts, Step::CheckRebase)
                && session_is_genuine(facts)
        }),
{
    reveal(steps::next_step);
}

/// A worktree is removed only by a removal, only when its session, if there was
/// one, is stopped, and only when it is clean or that does not matter.
pub proof fn sessions_are_stopped_before_their_worktree_goes(
    setting: Setting,
    facts: Map<Step, Reply>,
)
    requires
        steps::next_step(setting, facts) == Step::RemoveWorktree,
    ensures
        setting.operation == Operation::Remove,
        steps::reply(facts, Step::Find) == Some(Reply::Yes),
        steps::reply(facts, Step::FindSession) == Some(Reply::No) || steps::taken(
            facts,
            Step::StopSession,
        ),
        setting.force || steps::passed(facts, Step::CheckWorktree),
        setting.force || steps::reply(facts, Step::FindSession) == Some(Reply::No)
            || steps::passed(facts, Step::RecheckWorktree),
{
    reveal(steps::next_step);
}

/// A branch is deleted only when its worktree has been removed.
pub proof fn branches_go_after_their_worktree(setting: Setting, facts: Map<Step, Reply>)
    requires
        steps::next_step(setting, facts) == Step::DeleteBranch,
    ensures
        setting.operation == Operation::Remove,
        steps::taken(facts, Step::RemoveWorktree),
{
    reveal(steps::next_step);
}

/// Without force, a worktree with changes stays as it is, with its session.
pub proof fn dirty_worktrees_are_kept(setting: Setting, facts: Map<Step, Reply>)
    requires
        setting.operation == Operation::Remove,
        !setting.force,
        steps::reply(facts, Step::CheckWorktree) == Some(Reply::No),
    ensures
        !starts_or_changes(steps::next_step(setting, facts)),
{
    reveal(steps::next_step);
}

/// A removal stops only a session that is recorded and says what it is.
pub proof fn only_managed_sessions_are_stopped(setting: Setting, facts: Map<Step, Reply>)
    requires
        steps::next_step(setting, facts) == Step::StopSession,
    ensures
        setting.operation == Operation::Remove,
        steps::passed(facts, Step::FindSession),
        steps::passed(facts, Step::FindState),
        steps::passed(facts, Step::ReadState),
        steps::taken(facts, Step::CheckMetadata),
{
    reveal(steps::next_step);
}

/// Everything that comes before the start of a session went well.
pub open spec fn launching(setting: Setting, facts: Map<Step, Reply>) -> bool {
    &&& setting.operation == Operation::Run
    &&& setting.valid_name
    &&& steps::taken(facts, Step::EnsureAvailable)
    &&& steps::taken(facts, Step::Locate)
    &&& steps::taken(facts, Step::Lock)
    &&& steps::taken(facts, Step::Contain)
    &&& steps::reply(facts, Step::Find) == Some(Reply::Yes) || {
        &&& steps::reply(facts, Step::Find) == Some(Reply::No)
        &&& steps::reply(facts, Step::CheckTarget) == Some(Reply::No)
        &&& steps::taken(facts, Step::CheckHead)
        &&& steps::passed(facts, Step::CheckSource)
        &&& steps::taken(facts, Step::CheckBranchName)
        &&& steps::taken(facts, Step::MakeParent)
        &&& steps::taken(facts, Step::AddWorktree)
    }
    &&& steps::reply(facts, Step::FindSession) == Some(Reply::No)
    &&& steps::reply(facts, Step::FindStale) == Some(Reply::No) || {
        &&& steps::taken(facts, Step::FindStale)
        &&& steps::passed(facts, Step::ReadState)
        &&& steps::taken(facts, Step::RemoveStale)
    }
    &&& steps::reply(facts, Step::LoadConfig) == Some(Reply::Yes) || {
        &&& steps::reply(facts, Step::LoadConfig) == Some(Reply::Without)
        &&& steps::taken(facts, Step::PickAgent)
    }
    &&& steps::passed(facts, Step::CheckCommand)
    &&& steps::taken(facts, Step::Prepare)
}

proof fn lemma_launching(setting: Setting, facts: Map<Step, Reply>)
    requires
        launching(setting, facts),
    ensures
        steps::next_step(setting, facts) == steps::launch_step(setting, facts),
{
    reveal(steps::next_step);
}

proof fn lemma_created_in_a_launch(setting: Setting, facts: Map<Step, Reply>)
    requires
        steps::next_step(setting, facts) == Step::CreateSession,
    ensures
        launching(setting, facts),
        steps::taken(facts, Step::WriteState),
{
    reveal(steps::next_step);
}

/// Once a session was to be started, the start is seen to its end.
proof fn lemma_launches_go_on(setting: Setting, replies: Seq<(Step, Reply)>)
    requires
        steps::is_course(setting, replies),
        steps::known(replies).dom().contains(Step::CreateSession),
    ensures
        launching(setting, steps::known(replies)),
        steps::taken(steps::known(replies), Step::WriteState),
    decreases replies.len(),
{
    lemma_courses_begin_with_courses(setting, replies);
    let before = replies.drop_last();
    let facts = steps::known(before);
    if facts.dom().contains(Step::CreateSession) {
        lemma_launches_go_on(setting, before);
        lemma_launching(setting, facts);
        assert(replies.last().0 == steps::launch_step(setting, facts));
    } else {
        assert(replies.last().0 == Step::CreateSession);
        lemma_created_in_a_launch(setting, facts);
    }
}

/// A start that fails, or an agent that is dead right away, leads to an end only
/// after record and session were dropped, and never to a good one.
pub proof fn failed_starts_are_cleaned_up(setting: Setting, replies: Seq<(Step, Reply)>)
    requires
        steps::is_course(setting, replies),
        ({
            let facts = steps::known(replies);
            ||| steps::reply(facts, Step::CreateSession) == Some(Reply::Failed)
            ||| steps::reply(facts, Step::CheckStarted) == Some(Reply::Failed)
            ||| steps::reply(facts, Step::CheckAgent) == Some(Reply::Failed)
            ||| steps::reply(facts, Step::CheckAgent) == Some(Reply::No)
            ||| steps::reply(facts, Step::WritePane) == Some(Reply::Failed)
        }),
    ensures
        ({
            let facts = steps::known(replies);
            let step = steps::next_step(setting, facts);
            ||| step == Step::DropState
            ||| step == Step::DropSession
            ||| step is Finish && step != steps::done() && steps::reply(facts, Step::DropState)
                is Some && steps::reply(facts, Step::DropSession) is Some
        }),
{
    lemma_checks_come_in_order(setting, replies);
    lemma_launches_go_on(setting, replies);
    lemma_launching(setting, steps::known(replies));
}

/// What follows from the order of the checks on a session that was started.
pub open spec fn checked_in_order(facts: Map<Step, Reply>) -> bool {
    &&& facts.dom().contains(Step::CheckStarted) ==> steps::taken(facts, Step::CreateSession)
    &&& facts.dom().contains(Step::CheckAgent) ==> steps::reply(facts, Step::CreateSession)
        == Some(Reply::Yes) && steps::passed(facts, Step::CheckStarted)
    &&& facts.dom().contains(Step::WritePane) ==> steps::passed(facts, Step::CheckStarted) && (
    steps::reply(facts, Step::CreateSession) == Some(Reply::Yes) ==> steps::passed(
        facts,
        Step::CheckAgent,
    ))
}

proof fn lemma_checks_follow_a_start(setting: Setting, facts: Map<Step, Reply>)
    ensures
        steps::next_step(setting, facts) == Step::CheckStarted ==> steps::taken(
            facts,
            Step::CreateSession,
        ),
        steps::next_step(setting, facts) == Step::CheckAgent ==> steps::reply(
            facts,
            Step::CreateSession,
        ) == Some(Reply::Yes) && steps::passed(facts, Step::CheckStarted),
        steps::next_step(setting, facts) == Step::WritePane ==> steps::passed(
            facts,
            Step::CheckStarted,
        ) && (steps::reply(facts, Step::CreateSession) == Some(Reply::Yes) ==> steps::passed(
            facts,
            Step::CheckAgent,
        )),
{
    reveal(steps::next_step);
}

proof fn lemma_order_is_kept(setting: Setting, facts: Map<Step, Reply>, reply: Reply)
    requires
        checked_in_order(facts),
        !(steps::next_step(setting, facts) is Finish),
    ensures
        checked_in_order(facts.insert(steps::next_step(setting, facts), reply)),
{
    every_step_is_taken_once(setting, facts);
    lemma_checks_follow_a_start(setting, facts);
}

proof fn lemma_checks_come_in_order(setting: Setting, replies: Seq<(Step, Reply)>)
    requires
        steps::is_course(setting, replies),
    ensures
        checked_in_order(steps::known(replies)),
    decreases replies.len(),
{
    if replies.len() > 0 {
        let before = replies.drop_last();
        lemma_courses_begin_with_courses(setting, replies);
        lemma_checks_come_in_order(setting, before);
        lemma_order_is_kept(setting, steps::known(before), replies.last().1);
    }
}

/// A session that cannot be configured is stopped, and its record is removed only
/// when it is no longer there.
pub proof fn unconfigured_sessions_are_stopped(setting: Setting, facts: Map<Step, Reply>)
    requires
        steps::next_step(setting, facts) == Step::RemoveFailed,
    ensures
        steps::reply(facts, Step::Configure) == Some(Reply::Failed),
        steps::reply(facts, Step::CheckFailed) == Some(Reply::No) || steps::taken(
            facts,
            Step::KillFailed,
        ),
{
    reveal(steps::next_step);
}

/// A run that ends well has a session with a live agent: one that was there and
/// is genuine, or one that was started, recorded and configured. It is attached
/// to if that was asked for.
pub proof fn finished_runs_have_an_agent(setting: Setting, facts: Map<Step, Reply>)
    requires
        setting.operation == Operation::Run,
        steps::next_step(setting, facts) == steps::done(),
    ensures
        ({
            ||| {
                &&& session_is_genuine(facts)
                &&& steps::taken(facts, Step::Adorn)
                &&& setting.attach ==> steps::taken(facts, Step::Attach)
            }
            ||| {
                &&& steps::taken(facts, Step::CreateSession)
                &&& steps::passed(facts, Step::CheckStarted)
                &&& steps::taken(facts, Step::WritePane)
                &&& steps::taken(facts, Step::Configure)
                &&& steps::passed(facts, Step::CheckConfigured)
                &&& setting.attach ==> steps::taken(facts, Step::AttachAgent)
            }
        }),
{
    reveal(steps::next_step);
}

/// A removal that ends well has removed worktree, branch and record.
pub proof fn finished_removals_leave_nothing(setting: Setting, facts: Map<Step, Reply>)
    requires
        setting.operation == Operation::Remove,
        steps::next_step(setting, facts) == steps::done(),
    ensures
        steps::reply(facts, Step::FindSession) == Some(Reply::No) || steps::taken(
            facts,
            Step::StopSession,
        ),
        steps::taken(facts, Step::RemoveWorktree),
        steps::taken(facts, Step::DeleteBranch),
        steps::reply(facts, Step::FindStale) == Some(Reply::No) || steps::taken(
            facts,
            Step::RemoveState,
        ),
{
    reveal(steps::next_step);
}

/// A prompt that ends well was delivered to a genuine session, and attaching that
/// ends well was attaching to one.
pub proof fn finished_requests_reached_the_session(setting: Setting, facts: Map<Step, Reply>)
    requires
        setting.operation == Operation::Prompt || setting.operation == Operation::Attach,
        steps::next_step(setting, facts) == steps::done(),
    ensures
        session_is_genuine(facts),
        setting.operation == Operation::Prompt ==> steps::taken(facts, Step::Deliver),
        setting.operation == Operation::Attach ==> steps::taken(facts, Step::Attach),
{
    reveal(steps::next_step);
}

} // verus!
