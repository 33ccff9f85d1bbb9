//! The order of things: which step of an operation comes next, given what the
//! steps before it have shown.

use vstd::prelude::*;

verus! {

/// What is to be done.
#[derive(Clone, Copy, Debug, PartialEq, Eq, Structural)]
pub enum Operation {
    /// Create or reuse a worktree and run its agent.
    Run,
    /// Attach to a session that is there.
    Attach,
    /// Deliver a prompt to a session that is there.
    Prompt,
    /// Open a worktree in an editor.
    Edit,
    /// Tell where a worktree is.
    Path,
    /// Remove a worktree with its session and its branch.
    Remove,
    /// Tell how the session of a worktree is doing.
    Status,
}

#[derive(Clone, Copy, Debug, PartialEq, Eq, Structural)]
pub struct Setting {
    pub operation: Operation,
    /// The worktree has a name that can be used.
    pub valid_name: bool,
    /// A run ends by attaching to the session.
    pub attach: bool,
    /// A removal may discard changes.
    pub force: bool,
}

/// How an operation ends.
#[derive(Clone, Copy, Debug, PartialEq, Eq, Structural)]
pub enum Outcome {
    Done,
    /// The failure of a step is passed on.
    Reported,
    BadName,
    Missing,
    WrongBranch,
    Occupied,
    DirtySource,
    Unmanaged,
    Mismatch,
    StaleMismatch,
    UnknownAgent,
    SelectionUnavailable,
    CommandMissing,
    Exited,
    DeadPane,
    UncheckedCleanup,
    FailedCleanup,
    LeftMetadata,
    UnmanagedAgent,
    NoSession,
    AgentMismatch,
    NotRunning,
    Undelivered,
    DirtyWorktree,
    MetadataMismatch,
    ChangedWhileStopping,
}

/// A step of an operation.
#[derive(Clone, Copy, Debug, PartialEq, Eq, Structural)]
pub enum Step {
    /// Are sessions available at all?
    EnsureAvailable,
    /// Find the repository and what follows from it.
    Locate,
    /// Wait until no other operation works on the worktree.
    Lock,
    /// Does the worktree lie inside the managed directory?
    Contain,
    /// Is the checkout a directory?
    CheckDirectory,
    /// Does Git know the worktree? `Yes` if it is on its own branch, `Other` if
    /// it is on another, `Without` if it is on none, `No` if Git does not.
    Find,
    /// Is there something where the worktree would go?
    CheckTarget,
    /// Is the worktree on no branch because its own is being rebased?
    CheckRebase,
    /// Does the repository have a commit?
    CheckHead,
    /// Is the repository clean?
    CheckSource,
    /// Can a branch have the name?
    CheckBranchName,
    /// Is the session there?
    FindSession,
    /// Is there a record of the session?
    FindState,
    /// Does the record belong to the worktree? `Yes` if it also names the pane
    /// of the agent, `Without` if it does not.
    ReadState,
    /// Does the session say of itself what the record says of it?
    CheckMetadata,
    /// Which pane does the agent have? `No` if sessions have none.
    FindPane,
    /// Is the pane of the agent alive?
    CheckPane,
    /// Give a session that is reused its shortcuts and its looks.
    Adorn,
    /// Attach to the session.
    Attach,
    /// Is there a record that is left over?
    FindStale,
    /// Remove the record that is left over.
    RemoveStale,
    /// Load the configuration and select an agent. `Without` if a person has to
    /// select, `Other` if nobody can, `No` if the agent is not configured.
    LoadConfig,
    /// Let a person select the agent.
    PickAgent,
    /// Is the command of the agent available?
    CheckCommand,
    /// Create the directories of the tool.
    Prepare,
    /// Create the directory that the worktree goes to.
    MakeParent,
    /// Create the worktree and its branch.
    AddWorktree,
    /// Record the session that is about to start.
    WriteState,
    /// Start the session. `Yes` with the pane of the agent, `Without` one.
    CreateSession,
    /// Is the session there after its start?
    CheckStarted,
    /// Is the pane of the agent alive after its start?
    CheckAgent,
    /// Record the session with its pane.
    WritePane,
    /// Is the session still there once it is recorded?
    CheckRecorded,
    /// Tell the session what it is, and give it its shortcuts and its looks.
    Configure,
    /// Is the session that could not be configured still there?
    CheckFailed,
    /// Stop the session that could not be configured.
    KillFailed,
    /// Remove the record of the session that could not be configured.
    RemoveFailed,
    /// Remove the record of a failed start, if possible.
    DropState,
    /// Stop the session of a failed start, if possible.
    DropSession,
    /// Remove the record of a session that is gone.
    RemoveState,
    /// Is the session still there once it is configured?
    CheckConfigured,
    /// Attach to the session that was started.
    AttachAgent,
    /// Deliver the prompt.
    Deliver,
    /// Open the editor.
    OpenEditor,
    /// Resolve the path of the worktree.
    ResolvePath,
    /// Is the worktree clean?
    CheckWorktree,
    /// Stop the session of the worktree.
    StopSession,
    /// Is the worktree still clean with its session stopped?
    RecheckWorktree,
    /// Find a worktree to delete the branch from.
    FindRoot,
    /// Remove the worktree.
    RemoveWorktree,
    /// Delete the branch.
    DeleteBranch,
    /// Nothing more to do.
    Finish(Outcome),
}

/// What came of a step. A step that asks for something to be done and not a
/// question is answered with `Yes` when it was done.
#[derive(Clone, Copy, Debug, PartialEq, Eq, Structural)]
pub enum Reply {
    Yes,
    No,
    /// It could not be done or not be told.
    Failed,
    /// As `Yes`, but without something; the step says what.
    Without,
    /// Something else; the step says what.
    Other,
}

pub open spec fn reply(facts: Map<Step, Reply>, step: Step) -> Option<Reply> {
    if facts.dom().contains(step) {
        Some(facts[step])
    } else {
        None
    }
}

/// The step was taken and did not fail.
pub open spec fn taken(facts: Map<Step, Reply>, step: Step) -> bool {
    reply(facts, step) matches Some(r) && r != Reply::Failed
}

/// The step was taken, did not fail and was not answered with no.
pub open spec fn passed(facts: Map<Step, Reply>, step: Step) -> bool {
    reply(facts, step) matches Some(r) && r != Reply::No && r != Reply::Failed
}

/// What keeps an operation from going on behind a step: the step itself, if it
/// is still to be taken, or its failure.
pub open spec fn stopped(facts: Map<Step, Reply>, step: Step) -> Option<Step> {
    match reply(facts, step) {
        None => Some(step),
        Some(Reply::Failed) => Some(Step::Finish(Outcome::Reported)),
        Some(_) => None,
    }
}

/// The same for a step that must not be answered with no.
pub open spec fn refused(facts: Map<Step, Reply>, step: Step, outcome: Outcome) -> Option<Step> {
    match reply(facts, step) {
        Some(Reply::No) => Some(Step::Finish(outcome)),
        _ => stopped(facts, step),
    }
}

pub open spec fn or_else(first: Option<Step>, rest: Step) -> Step {
    match first {
        Some(step) => step,
        None => rest,
    }
}

/// A step and what comes behind it.
pub open spec fn gate(facts: Map<Step, Reply>, step: Step, rest: Step) -> Step {
    or_else(stopped(facts, step), rest)
}

/// A step that has to be answered well, and what comes behind it.
pub open spec fn need(facts: Map<Step, Reply>, step: Step, outcome: Outcome, rest: Step) -> Step {
    or_else(refused(facts, step, outcome), rest)
}

/// Operations that deal with sessions.
pub open spec fn uses_sessions(operation: Operation) -> bool {
    operation != Operation::Edit && operation != Operation::Path
}

pub open spec fn done() -> Step {
    Step::Finish(Outcome::Done)
}

#[verifier::opaque]
pub open spec fn next_step(setting: Setting, facts: Map<Step, Reply>) -> Step {
    if setting.operation == Operation::Status {
        status_step(facts)
    } else {
        or_else(preamble(setting, facts), main_step(setting, facts))
    }
}

/// What all operations on a named worktree begin with.
pub open spec fn preamble(setting: Setting, facts: Map<Step, Reply>) -> Option<Step> {
    if uses_sessions(setting.operation) && stopped(facts, Step::EnsureAvailable) is Some {
        stopped(facts, Step::EnsureAvailable)
    } else if !setting.valid_name {
        Some(Step::Finish(Outcome::BadName))
    } else if stopped(facts, Step::Locate) is Some {
        stopped(facts, Step::Locate)
    } else if uses_sessions(setting.operation) && stopped(facts, Step::Lock) is Some {
        stopped(facts, Step::Lock)
    } else if stopped(facts, Step::Contain) is Some {
        stopped(facts, Step::Contain)
    } else if setting.operation == Operation::Prompt && refused(
        facts,
        Step::CheckDirectory,
        Outcome::Missing,
    ) is Some {
        refused(facts, Step::CheckDirectory, Outcome::Missing)
    } else {
        stopped(facts, Step::Find)
    }
}

pub open spec fn main_step(setting: Setting, facts: Map<Step, Reply>) -> Step {
    match setting.operation {
        Operation::Run => run_step(setting, facts),
        Operation::Attach => or_else(
            off_branch(setting, facts),
            session_step(facts, gate(facts, Step::Attach, done())),
        ),
        Operation::Prompt => or_else(
            off_branch(setting, facts),
            session_step(facts, deliver_step(facts)),
        ),
        Operation::Edit => or_else(
            off_branch(setting, facts),
            gate(facts, Step::OpenEditor, done()),
        ),
        Operation::Path => or_else(
            off_branch(setting, facts),
            gate(facts, Step::ResolvePath, done()),
        ),
        Operation::Remove => or_else(off_branch(setting, facts), remove_step(setting, facts)),
        Operation::Status => status_step(facts),
    }
}

/// A worktree on no branch is accepted only while its own is being rebased.
pub open spec fn detached(facts: Map<Step, Reply>) -> Option<Step> {
    refused(facts, Step::CheckRebase, Outcome::WrongBranch)
}

/// What is wrong with the worktree of an operation that creates none.
pub open spec fn off_branch(setting: Setting, facts: Map<Step, Reply>) -> Option<Step> {
    match reply(facts, Step::Find) {
        Some(Reply::Yes) => None,
        Some(Reply::No) => Some(Step::Finish(Outcome::Missing)),
        Some(Reply::Without) => if setting.operation == Operation::Attach {
            detached(facts)
        } else {
            Some(Step::Finish(Outcome::WrongBranch))
        },
        _ => Some(Step::Finish(Outcome::WrongBranch)),
    }
}

/// The session has to be what it says it is, with its agent alive.
pub open spec fn genuine(facts: Map<Step, Reply>, rest: Step) -> Step {
    gate(facts, Step::CheckMetadata, with_pane(facts, rest))
}

pub open spec fn with_pane(facts: Map<Step, Reply>, rest: Step) -> Step {
    if reply(facts, Step::ReadState) == Some(Reply::Yes) {
        need(facts, Step::CheckPane, Outcome::DeadPane, rest)
    } else {
        gate(
            facts,
            Step::FindPane,
            if reply(facts, Step::FindPane) == Some(Reply::No) {
                rest
            } else {
                need(facts, Step::CheckPane, Outcome::DeadPane, rest)
            },
        )
    }
}

/// A live session of the worktree is needed.
pub open spec fn session_step(facts: Map<Step, Reply>, rest: Step) -> Step {
    gate(
        facts,
        Step::FindSession,
        need(
            facts,
            Step::FindState,
            if reply(facts, Step::FindSession) == Some(Reply::No) {
                Outcome::NoSession
            } else {
                Outcome::UnmanagedAgent
            },
            need(
                facts,
                Step::ReadState,
                Outcome::AgentMismatch,
                if reply(facts, Step::FindSession) == Some(Reply::No) {
                    Step::Finish(Outcome::NotRunning)
                } else {
                    genuine(facts, rest)
                },
            ),
        ),
    )
}

pub open spec fn deliver_step(facts: Map<Step, Reply>) -> Step {
    if reply(facts, Step::Deliver) == Some(Reply::Failed) {
        Step::Finish(Outcome::Undelivered)
    } else {
        gate(facts, Step::Deliver, done())
    }
}

pub open spec fn run_step(setting: Setting, facts: Map<Step, Reply>) -> Step {
    match reply(facts, Step::Find) {
        Some(Reply::Yes) => located_step(setting, facts),
        Some(Reply::Without) => or_else(detached(facts), located_step(setting, facts)),
        Some(Reply::No) => gate(
            facts,
            Step::CheckTarget,
            if reply(facts, Step::CheckTarget) != Some(Reply::No) {
                Step::Finish(Outcome::Occupied)
            } else {
                gate(
                    facts,
                    Step::CheckHead,
                    need(
                        facts,
                        Step::CheckSource,
                        Outcome::DirtySource,
                        gate(facts, Step::CheckBranchName, located_step(setting, facts)),
                    ),
                )
            },
        ),
        _ => Step::Finish(Outcome::WrongBranch),
    }
}

/// A live session is reused; otherwise one is started.
pub open spec fn located_step(setting: Setting, facts: Map<Step, Reply>) -> Step {
    gate(
        facts,
        Step::FindSession,
        if reply(facts, Step::FindSession) != Some(Reply::No) {
            reuse_step(setting, facts)
        } else if reply(facts, Step::Find) == Some(Reply::Without) {
            Step::Finish(Outcome::WrongBranch)
        } else {
            start_step(setting, facts)
        },
    )
}

pub open spec fn reuse_step(setting: Setting, facts: Map<Step, Reply>) -> Step {
    need(
        facts,
        Step::FindState,
        Outcome::Unmanaged,
        need(
            facts,
            Step::ReadState,
            Outcome::Mismatch,
            genuine(
                facts,
                gate(
                    facts,
                    Step::Adorn,
                    if setting.attach {
                        gate(facts, Step::Attach, done())
                    } else {
                        done()
                    },
                ),
            ),
        ),
    )
}

pub open spec fn start_step(setting: Setting, facts: Map<Step, Reply>) -> Step {
    gate(
        facts,
        Step::FindStale,
        if reply(facts, Step::FindStale) == Some(Reply::No) {
            agent_step(setting, facts)
        } else {
            need(
                facts,
                Step::ReadState,
                Outcome::StaleMismatch,
                gate(facts, Step::RemoveStale, agent_step(setting, facts)),
            )
        },
    )
}

pub open spec fn agent_step(setting: Setting, facts: Map<Step, Reply>) -> Step {
    need(
        facts,
        Step::LoadConfig,
        Outcome::UnknownAgent,
        if reply(facts, Step::LoadConfig) == Some(Reply::Other) {
            Step::Finish(Outcome::SelectionUnavailable)
        } else if reply(facts, Step::LoadConfig) == Some(Reply::Without) {
            gate(facts, Step::PickAgent, command_step(setting, facts))
        } else {
            command_step(setting, facts)
        },
    )
}

pub open spec fn command_step(setting: Setting, facts: Map<Step, Reply>) -> Step {
    need(
        facts,
        Step::CheckCommand,
        Outcome::CommandMissing,
        gate(
            facts,
            Step::Prepare,
            if reply(facts, Step::Find) == Some(Reply::No) {
                gate(
                    facts,
                    Step::MakeParent,
                    gate(facts, Step::AddWorktree, launch_step(setting, facts)),
                )
            } else {
                launch_step(setting, facts)
            },
        ),
    )
}

/// What is left of a failed start is removed as far as that is possible.
pub open spec fn clean_up(facts: Map<Step, Reply>, outcome: Outcome) -> Step {
    if reply(facts, Step::DropState) is None {
        Step::DropState
    } else if reply(facts, Step::DropSession) is None {
        Step::DropSession
    } else {
        Step::Finish(outcome)
    }
}

/// The session is gone: so is its record.
pub open spec fn gone(facts: Map<Step, Reply>) -> Step {
    gate(facts, Step::RemoveState, Step::Finish(Outcome::Exited))
}

pub open spec fn launch_step(setting: Setting, facts: Map<Step, Reply>) -> Step {
    gate(
        facts,
        Step::WriteState,
        match reply(facts, Step::CreateSession) {
            None => Step::CreateSession,
            Some(Reply::Failed) => clean_up(facts, Outcome::Reported),
            Some(_) => started_step(setting, facts),
        },
    )
}

pub open spec fn started_step(setting: Setting, facts: Map<Step, Reply>) -> Step {
    match reply(facts, Step::CheckStarted) {
        None => Step::CheckStarted,
        Some(Reply::Failed) => clean_up(facts, Outcome::Reported),
        Some(Reply::No) => if reply(facts, Step::DropState) is None {
            Step::DropState
        } else {
            Step::Finish(Outcome::Exited)
        },
        Some(_) => if reply(facts, Step::CreateSession) == Some(Reply::Yes) {
            match reply(facts, Step::CheckAgent) {
                None => Step::CheckAgent,
                Some(Reply::Failed) => clean_up(facts, Outcome::Reported),
                Some(Reply::No) => clean_up(facts, Outcome::DeadPane),
                Some(_) => alive_step(setting, facts),
            }
        } else {
            alive_step(setting, facts)
        },
    }
}

pub open spec fn alive_step(setting: Setting, facts: Map<Step, Reply>) -> Step {
    match reply(facts, Step::WritePane) {
        None => Step::WritePane,
        Some(Reply::Failed) => clean_up(facts, Outcome::Reported),
        Some(_) => gate(
            facts,
            Step::CheckRecorded,
            if reply(facts, Step::CheckRecorded) == Some(Reply::No) {
                gone(facts)
            } else {
                match reply(facts, Step::Configure) {
                    None => Step::Configure,
                    Some(Reply::Failed) => unconfigured_step(facts),
                    Some(_) => gate(
                        facts,
                        Step::CheckConfigured,
                        if reply(facts, Step::CheckConfigured) == Some(Reply::No) {
                            gone(facts)
                        } else if setting.attach {
                            gate(facts, Step::AttachAgent, done())
                        } else {
                            done()
                        },
                    ),
                }
            },
        ),
    }
}

/// A session that could not be configured is not left behind.
pub open spec fn unconfigured_step(facts: Map<Step, Reply>) -> Step {
    match reply(facts, Step::CheckFailed) {
        None => Step::CheckFailed,
        Some(Reply::Failed) => Step::Finish(Outcome::UncheckedCleanup),
        Some(Reply::No) => match reply(facts, Step::RemoveFailed) {
            None => Step::RemoveFailed,
            Some(Reply::Failed) => Step::Finish(Outcome::LeftMetadata),
            Some(_) => Step::Finish(Outcome::Exited),
        },
        Some(_) => match reply(facts, Step::KillFailed) {
            None => Step::KillFailed,
            Some(Reply::Failed) => Step::Finish(Outcome::FailedCleanup),
            Some(_) => match reply(facts, Step::RemoveFailed) {
                None => Step::RemoveFailed,
                Some(Reply::Failed) => Step::Finish(Outcome::LeftMetadata),
                Some(_) => Step::Finish(Outcome::Reported),
            },
        },
    }
}

pub open spec fn remove_step(setting: Setting, facts: Map<Step, Reply>) -> Step {
    if setting.force {
        stop_step(setting, facts)
    } else {
        need(facts, Step::CheckWorktree, Outcome::DirtyWorktree, stop_step(setting, facts))
    }
}

pub open spec fn stop_step(setting: Setting, facts: Map<Step, Reply>) -> Step {
    let live = reply(facts, Step::FindSession) != Some(Reply::No);
    let stop = if !live {
        delete_step(facts)
    } else {
        gate(
            facts,
            Step::StopSession,
            if setting.force {
                delete_step(facts)
            } else {
                need(
                    facts,
                    Step::RecheckWorktree,
                    Outcome::ChangedWhileStopping,
                    delete_step(facts),
                )
            },
        )
    };
    gate(
        facts,
        Step::FindSession,
        gate(
            facts,
            Step::FindState,
            if reply(facts, Step::FindState) == Some(Reply::No) {
                if live {
                    Step::Finish(Outcome::Unmanaged)
                } else {
                    delete_step(facts)
                }
            } else {
                need(
                    facts,
                    Step::ReadState,
                    Outcome::MetadataMismatch,
                    if live {
                        gate(facts, Step::CheckMetadata, stop)
                    } else {
                        stop
                    },
                )
            },
        ),
    )
}

pub open spec fn delete_step(facts: Map<Step, Reply>) -> Step {
    gate(
        facts,
        Step::FindRoot,
        gate(
            facts,
            Step::RemoveWorktree,
            gate(
                facts,
                Step::DeleteBranch,
                gate(
                    facts,
                    Step::FindStale,
                    if reply(facts, Step::FindStale) == Some(Reply::No) {
                        done()
                    } else {
                        gate(facts, Step::RemoveState, done())
                    },
                ),
            ),
        ),
    )
}

pub open spec fn status_step(facts: Map<Step, Reply>) -> Step {
    gate(
        facts,
        Step::FindState,
        if reply(facts, Step::FindState) == Some(Reply::No) {
            done()
        } else {
            gate(
                facts,
                Step::FindSession,
                if reply(facts, Step::FindSession) == Some(Reply::No) {
                    done()
                } else {
                    need(
                        facts,
                        Step::ReadState,
                        Outcome::MetadataMismatch,
                        gate(facts, Step::CheckMetadata, pane_status_step(facts)),
                    )
                },
            )
        },
    )
}

/// A pane that cannot be found or asked counts as dead.
pub open spec fn pane_status_step(facts: Map<Step, Reply>) -> Step {
    if reply(facts, Step::ReadState) != Some(Reply::Yes) && reply(facts, Step::FindPane) is None {
        Step::FindPane
    } else if (reply(facts, Step::ReadState) == Some(Reply::Yes) || passed(facts, Step::FindPane))
        && reply(facts, Step::CheckPane) is None {
        Step::CheckPane
    } else {
        done()
    }
}

/// A course goes on with the step that is next.
pub proof fn lemma_course_goes_on(
    setting: Setting,
    replies: Seq<(Step, Reply)>,
    step: Step,
    reply: Reply,
)
    requires
        is_course(setting, replies),
        step == next_step(setting, known(replies)),
        !(step is Finish),
    ensures
        is_course(setting, replies.push((step, reply))),
{
    let longer = replies.push((step, reply));
    assert forall|i: int| 0 <= i < longer.len() implies (#[trigger] longer[i]).0 == next_step(
        setting,
        known(longer.take(i)),
    ) && !(longer[i].0 is Finish) by {
        assert(longer.take(i) =~= replies.take(i));
        if i < replies.len() {
            assert(longer[i] == replies[i]);
        } else {
            assert(replies.take(i) =~= replies);
        }
    }
}

/// The replies to the steps of an operation, in the order in which they came.
#[derive(Debug)]
pub struct Facts {
    pub replies: Vec<(Step, Reply)>,
}

/// Every reply is one to the step that was next, given the replies before it.
pub open spec fn is_course(setting: Setting, replies: Seq<(Step, Reply)>) -> bool {
    forall|i: int|
        0 <= i < replies.len() ==> (#[trigger] replies[i]).0 == next_step(
            setting,
            known(replies.take(i)),
        ) && !(replies[i].0 is Finish)
}

/// The latest reply to every step.
pub open spec fn known(replies: Seq<(Step, Reply)>) -> Map<Step, Reply>
    decreases replies.len(),
{
    if replies.len() == 0 {
        Map::empty()
    } else {
        known(replies.drop_last()).insert(replies.last().0, replies.last().1)
    }
}

impl View for Facts {
    type V = Map<Step, Reply>;

    open spec fn view(&self) -> Map<Step, Reply> {
        known(self.replies@)
    }
}

impl Facts {
    pub fn new() -> (facts: Facts)
        ensures
            facts@ == Map::<Step, Reply>::empty(),
            facts.replies@ == Seq::<(Step, Reply)>::empty(),
    {
        Facts { replies: Vec::new() }
    }

    pub fn record(&mut self, step: Step, reply: Reply)
        ensures
            final(self)@ == old(self)@.insert(step, reply),
            final(self).replies@ == old(self).replies@.push((step, reply)),
    {
        self.replies.push((step, reply));
        assert(self.replies@.drop_last() =~= old(self).replies@);
    }

    pub fn reply(&self, step: Step) -> (r: Option<Reply>)
        ensures
            r == reply(self@, step),
    {
        let ghost all = self.replies@;
        let mut left: usize = self.replies.len();
        assert(all.take(left as int) =~= all);
        while left > 0
            invariant
                all == self.replies@,
                left <= all.len(),
                reply(known(all.take(left as int)), step) == reply(known(all), step),
            decreases left,
        {
            assert(all.take(left as int).last() == all[left - 1]);
            if self.replies[left - 1].0 == step {
                return Some(self.replies[left - 1].1);
            }
            assert(all.take(left as int).drop_last() =~= all.take(left - 1));
            left = left - 1;
        }
        None
    }

    fn stopped(&self, step: Step) -> (r: Option<Step>)
        ensures
            r == stopped(self@, step),
    {
        match self.reply(step) {
            None => Some(step),
            Some(Reply::Failed) => Some(Step::Finish(Outcome::Reported)),
            Some(_) => None,
        }
    }

    fn refused(&self, step: Step, outcome: Outcome) -> (r: Option<Step>)
        ensures
            r == refused(self@, step, outcome),
    {
        match self.reply(step) {
            Some(Reply::No) => Some(Step::Finish(outcome)),
            _ => self.stopped(step),
        }
    }

    fn is(&self, step: Step, answer: Reply) -> (r: bool)
        ensures
            r == (reply(self@, step) == Some(answer)),
    {
        self.reply(step) == Some(answer)
    }

    fn open(&self, step: Step) -> (r: bool)
        ensures
            r == (reply(self@, step) is None),
    {
        self.reply(step).is_none()
    }

    /// The next step of an operation.
    pub fn next(&self, setting: Setting) -> (step: Step)
        ensures
            step == next_step(setting, self@),
    {
        reveal(next_step);
        if setting.operation == Operation::Status {
            return self.status_next();
        }
        if let Some(step) = self.preamble(setting) {
            return step;
        }
        if setting.operation == Operation::Run {
            return self.run_next(setting);
        }
        if let Some(step) = self.off_branch(setting) {
            return step;
        }
        match setting.operation {
            Operation::Attach => match self.session_stop() {
                Some(step) => step,
                None => self.last(Step::Attach),
            },
            Operation::Prompt => match self.session_stop() {
                Some(step) => step,
                None => if self.is(Step::Deliver, Reply::Failed) {
                    Step::Finish(Outcome::Undelivered)
                } else {
                    self.last(Step::Deliver)
                },
            },
            Operation::Edit => self.last(Step::OpenEditor),
            Operation::Path => self.last(Step::ResolvePath),
            Operation::Remove => self.remove_next(setting),
            Operation::Run => self.run_next(setting),
            Operation::Status => self.status_next(),
        }
    }

    fn last(&self, step: Step) -> (r: Step)
        ensures
            r == gate(self@, step, done()),
    {
        match self.stopped(step) {
            Some(step) => step,
            None => Step::Finish(Outcome::Done),
        }
    }

    fn preamble(&self, setting: Setting) -> (r: Option<Step>)
        ensures
            r == preamble(setting, self@),
    {
        let sessions: bool = setting.operation != Operation::Edit && setting.operation
            != Operation::Path;
        if sessions {
            if let Some(step) = self.stopped(Step::EnsureAvailable) {
                return Some(step);
            }
        }
        if !setting.valid_name {
            return Some(Step::Finish(Outcome::BadName));
        }
        if let Some(step) = self.stopped(Step::Locate) {
            return Some(step);
        }
        if sessions {
            if let Some(step) = self.stopped(Step::Lock) {
                return Some(step);
            }
        }
        if let Some(step) = self.stopped(Step::Contain) {
            return Some(step);
        }
        if setting.operation == Operation::Prompt {
            if let Some(step) = self.refused(Step::CheckDirectory, Outcome::Missing) {
                return Some(step);
            }
        }
        self.stopped(Step::Find)
    }

    fn off_branch(&self, setting: Setting) -> (r: Option<Step>)
        ensures
            r == off_branch(setting, self@),
    {
        match self.reply(Step::Find) {
            Some(Reply::Yes) => None,
            Some(Reply::No) => Some(Step::Finish(Outcome::Missing)),
            Some(Reply::Without) => if setting.operation == Operation::Attach {
                self.refused(Step::CheckRebase, Outcome::WrongBranch)
            } else {
                Some(Step::Finish(Outcome::WrongBranch))
            },
            _ => Some(Step::Finish(Outcome::WrongBranch)),
        }
    }

    /// What keeps an operation from going on behind the checks of a session.
    fn not_genuine(&self) -> (r: Option<Step>)
        ensures
            forall|rest: Step| #[trigger] genuine(self@, rest) == or_else(r, rest),
    {
        if let Some(step) = self.stopped(Step::CheckMetadata) {
            return Some(step);
        }
        if self.is(Step::ReadState, Reply::Yes) {
            return self.refused(Step::CheckPane, Outcome::DeadPane);
        }
        if let Some(step) = self.stopped(Step::FindPane) {
            return Some(step);
        }
        if self.is(Step::FindPane, Reply::No) {
            None
        } else {
            self.refused(Step::CheckPane, Outcome::DeadPane)
        }
    }

    /// What keeps an operation that needs a live session from going on.
    fn session_stop(&self) -> (r: Option<Step>)
        ensures
            forall|rest: Step| #[trigger] session_step(self@, rest) == or_else(r, rest),
    {
        if let Some(step) = self.stopped(Step::FindSession) {
            return Some(step);
        }
        let live: bool = !self.is(Step::FindSession, Reply::No);
        let unrecorded: Outcome = if live {
            Outcome::UnmanagedAgent
        } else {
            Outcome::NoSession
        };
        if let Some(step) = self.refused(Step::FindState, unrecorded) {
            return Some(step);
        }
        if let Some(step) = self.refused(Step::ReadState, Outcome::AgentMismatch) {
            return Some(step);
        }
        if !live {
            return Some(Step::Finish(Outcome::NotRunning));
        }
        self.not_genuine()
    }

    fn run_next(&self, setting: Setting) -> (r: Step)
        ensures
            r == run_step(setting, self@),
    {
        match self.reply(Step::Find) {
            Some(Reply::Yes) => self.located_next(setting),
            Some(Reply::Without) => match self.refused(Step::CheckRebase, Outcome::WrongBranch) {
                Some(step) => step,
                None => self.located_next(setting),
            },
            Some(Reply::No) => {
                if let Some(step) = self.stopped(Step::CheckTarget) {
                    return step;
                }
                if !self.is(Step::CheckTarget, Reply::No) {
                    return Step::Finish(Outcome::Occupied);
                }
                if let Some(step) = self.stopped(Step::CheckHead) {
                    return step;
                }
                if let Some(step) = self.refused(Step::CheckSource, Outcome::DirtySource) {
                    return step;
                }
                if let Some(step) = self.stopped(Step::CheckBranchName) {
                    return step;
                }
                self.located_next(setting)
            },
            _ => Step::Finish(Outcome::WrongBranch),
        }
    }

    fn located_next(&self, setting: Setting) -> (r: Step)
        ensures
            r == located_step(setting, self@),
    {
        if let Some(step) = self.stopped(Step::FindSession) {
            return step;
        }
        if !self.is(Step::FindSession, Reply::No) {
            return self.reuse_next(setting);
        }
        if self.is(Step::Find, Reply::Without) {
            return Step::Finish(Outcome::WrongBranch);
        }
        self.start_next(setting)
    }

    fn reuse_next(&self, setting: Setting) -> (r: Step)
        ensures
            r == reuse_step(setting, self@),
    {
        if let Some(step) = self.refused(Step::FindState, Outcome::Unmanaged) {
            return step;
        }
        if let Some(step) = self.refused(Step::ReadState, Outcome::Mismatch) {
            return step;
        }
        if let Some(step) = self.not_genuine() {
            return step;
        }
        if let Some(step) = self.stopped(Step::Adorn) {
            return step;
        }
        if setting.attach {
            self.last(Step::Attach)
        } else {
            Step::Finish(Outcome::Done)
        }
    }

    fn start_next(&self, setting: Setting) -> (r: Step)
        ensures
            r == start_step(setting, self@),
    {
        if let Some(step) = self.stopped(Step::FindStale) {
            return step;
        }
        if !self.is(Step::FindStale, Reply::No) {
            if let Some(step) = self.refused(Step::ReadState, Outcome::StaleMismatch) {
                return step;
            }
            if let Some(step) = self.stopped(Step::RemoveStale) {
                return step;
            }
        }
        if let Some(step) = self.refused(Step::LoadConfig, Outcome::UnknownAgent) {
            return step;
        }
        if self.is(Step::LoadConfig, Reply::Other) {
            return Step::Finish(Outcome::SelectionUnavailable);
        }
        if self.is(Step::LoadConfig, Reply::Without) {
            if let Some(step) = self.stopped(Step::PickAgent) {
                return step;
            }
        }
        self.command_next(setting)
    }

    fn command_next(&self, setting: Setting) -> (r: Step)
        ensures
            r == command_step(setting, self@),
    {
        if let Some(step) = self.refused(Step::CheckCommand, Outcome::CommandMissing) {
            return step;
        }
        if let Some(step) = self.stopped(Step::Prepare) {
            return step;
        }
        if self.is(Step::Find, Reply::No) {
            if let Some(step) = self.stopped(Step::MakeParent) {
                return step;
            }
            if let Some(step) = self.stopped(Step::AddWorktree) {
                return step;
            }
        }
        if let Some(step) = self.stopped(Step::WriteState) {
            return step;
        }
        match self.reply(Step::CreateSession) {
            None => Step::CreateSession,
            Some(Reply::Failed) => self.clean_up(Outcome::Reported),
            Some(_) => self.started_next(setting),
        }
    }

    fn clean_up(&self, outcome: Outcome) -> (r: Step)
        ensures
            r == clean_up(self@, outcome),
    {
        if self.open(Step::DropState) {
            Step::DropState
        } else if self.open(Step::DropSession) {
            Step::DropSession
        } else {
            Step::Finish(outcome)
        }
    }

    fn gone(&self) -> (r: Step)
        ensures
            r == gone(self@),
    {
        match self.stopped(Step::RemoveState) {
            Some(step) => step,
            None => Step::Finish(Outcome::Exited),
        }
    }

    fn started_next(&self, setting: Setting) -> (r: Step)
        ensures
            r == started_step(setting, self@),
    {
        match self.reply(Step::CheckStarted) {
            None => Step::CheckStarted,
            Some(Reply::Failed) => self.clean_up(Outcome::Reported),
            Some(Reply::No) => if self.open(Step::DropState) {
                Step::DropState
            } else {
                Step::Finish(Outcome::Exited)
            },
            Some(_) => if self.is(Step::CreateSession, Reply::Yes) {
                match self.reply(Step::CheckAgent) {
                    None => Step::CheckAgent,
                    Some(Reply::Failed) => self.clean_up(Outcome::Reported),
                    Some(Reply::No) => self.clean_up(Outcome::DeadPane),
                    Some(_) => self.alive_next(setting),
                }
            } else {
                self.alive_next(setting)
            },
        }
    }

    fn alive_next(&self, setting: Setting) -> (r: Step)
        ensures
            r == alive_step(setting, self@),
    {
        match self.reply(Step::WritePane) {
            None => {
                return Step::WritePane;
            },
            Some(Reply::Failed) => {
                return self.clean_up(Outcome::Reported);
            },
            Some(_) => {},
        }
        if let Some(step) = self.stopped(Step::CheckRecorded) {
            return step;
        }
        if self.is(Step::CheckRecorded, Reply::No) {
            return self.gone();
        }
        match self.reply(Step::Configure) {
            None => {
                return Step::Configure;
            },
            Some(Reply::Failed) => {
                return self.unconfigured_next();
            },
            Some(_) => {},
        }
        if let Some(step) = self.stopped(Step::CheckConfigured) {
            return step;
        }
        if self.is(Step::CheckConfigured, Reply::No) {
            return self.gone();
        }
        if setting.attach {
            self.last(Step::AttachAgent)
        } else {
            Step::Finish(Outcome::Done)
        }
    }

    fn unconfigured_next(&self) -> (r: Step)
        ensures
            r == unconfigured_step(self@),
    {
        let alive: bool = match self.reply(Step::CheckFailed) {
            None => {
                return Step::CheckFailed;
            },
            Some(Reply::Failed) => {
                return Step::Finish(Outcome::UncheckedCleanup);
            },
            Some(Reply::No) => false,
            Some(_) => true,
        };
        if alive {
            match self.reply(Step::KillFailed) {
                None => {
                    return Step::KillFailed;
                },
                Some(Reply::Failed) => {
                    return Step::Finish(Outcome::FailedCleanup);
                },
                Some(_) => {},
            }
        }
        match self.reply(Step::RemoveFailed) {
            None => Step::RemoveFailed,
            Some(Reply::Failed) => Step::Finish(Outcome::LeftMetadata),
            Some(_) => if alive {
                Step::Finish(Outcome::Reported)
            } else {
                Step::Finish(Outcome::Exited)
            },
        }
    }

    fn remove_next(&self, setting: Setting) -> (r: Step)
        ensures
            r == remove_step(setting, self@),
    {
        if !setting.force {
            if let Some(step) = self.refused(Step::CheckWorktree, Outcome::DirtyWorktree) {
                return step;
            }
        }
        if let Some(step) = self.stopped(Step::FindSession) {
            return step;
        }
        if let Some(step) = self.stopped(Step::FindState) {
            return step;
        }
        let live: bool = !self.is(Step::FindSession, Reply::No);
        if self.is(Step::FindState, Reply::No) {
            if live {
                return Step::Finish(Outcome::Unmanaged);
            }
        } else {
            if let Some(step) = self.refused(Step::ReadState, Outcome::MetadataMismatch) {
                return step;
            }
            if live {
                if let Some(step) = self.stopped(Step::CheckMetadata) {
                    return step;
                }
            }
        }
        if live {
            if let Some(step) = self.stopped(Step::StopSession) {
                return step;
            }
            if !setting.force {
                if let Some(step) = self.refused(
                    Step::RecheckWorktree,
                    Outcome::ChangedWhileStopping,
                ) {
                    return step;
                }
            }
        }
        self.delete_next()
    }

    fn delete_next(&self) -> (r: Step)
        ensures
            r == delete_step(self@),
    {
        if let Some(step) = self.stopped(Step::FindRoot) {
            return step;
        }
        if let Some(step) = self.stopped(Step::RemoveWorktree) {
            return step;
        }
        if let Some(step) = self.stopped(Step::DeleteBranch) {
            return step;
        }
        if let Some(step) = self.stopped(Step::FindStale) {
            return step;
        }
        if self.is(Step::FindStale, Reply::No) {
            return Step::Finish(Outcome::Done);
        }
        self.last(Step::RemoveState)
    }

    fn status_next(&self) -> (r: Step)
        ensures
            r == status_step(self@),
    {
        if let Some(step) = self.stopped(Step::FindState) {
            return step;
        }
        if self.is(Step::FindState, Reply::No) {
            return Step::Finish(Outcome::Done);
        }
        if let Some(step) = self.stopped(Step::FindSession) {
            return step;
        }
        if self.is(Step::FindSession, Reply::No) {
            return Step::Finish(Outcome::Done);
        }
        if let Some(step) = self.refused(Step::ReadState, Outcome::MetadataMismatch) {
            return step;
        }
        if let Some(step) = self.stopped(Step::CheckMetadata) {
            return step;
        }
        let recorded: bool = self.is(Step::ReadState, Reply::Yes);
        if !recorded && self.open(Step::FindPane) {
            return Step::FindPane;
        }
        let found: bool = match self.reply(Step::FindPane) {
            Some(Reply::No) => false,
            Some(Reply::Failed) => false,
            Some(_) => true,
            None => false,
        };
        if (recorded || found) && self.open(Step::CheckPane) {
            return Step::CheckPane;
        }
        Step::Finish(Outcome::Done)
    }
}

} // verus!
