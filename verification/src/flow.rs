//! An operation on a worktree while it is under way: what it was asked for, what
//! its steps have shown so far, and how it ends.

use vstd::prelude::*;
#[allow(unused_imports)]
use vstd::string::*;

use crate::bytes;
use crate::bytes::{copy_bytes, lossy_text};
use crate::config;
use crate::config::{quoted, Agent, AgentModel, Config, ConfigModel};
use crate::error;
use crate::error::{message, message2, message3, message4, ErrorModel, ToolError};
use crate::git;
use crate::git::{branch_command_root, Candidate, GitCommand, GitModel};
use crate::identity;
use crate::identity::session_name;
use crate::layout;
use crate::layout::{validate_worktree_name, DavidPaths, PathsModel};
use crate::listing::SessionStatus;
use crate::order;
use crate::selection;
use crate::selection::{select_agent, with_arguments, RunOptions, Selection, SelectionModel};
use crate::state;
use crate::state::{SessionMetadata, SessionState, StateModel};
use crate::steps;
use crate::steps::{Facts, Operation, Outcome, Reply, Setting, Step};
use crate::text;
use crate::text::same_text;
use crate::worktree;
use crate::worktree::{Worktree, WorktreeModel};

verus! {

/// What follows from the repository that an operation works in.
#[derive(Debug)]
pub struct Location {
    pub root: Vec<u8>,
    pub repo_id: String,
    pub project_name: String,
    /// Where the worktree is, or would be.
    pub target: Vec<u8>,
    /// Where the record of its session is.
    pub state_path: Vec<u8>,
    pub session: String,
}

#[verifier::ext_equal]
pub struct LocationModel {
    pub root: Seq<u8>,
    pub repo_id: Seq<char>,
    pub project_name: Seq<char>,
    pub target: Seq<u8>,
    pub state_path: Seq<u8>,
    pub session: Seq<char>,
}

impl View for Location {
    type V = LocationModel;

    open spec fn view(&self) -> LocationModel {
        LocationModel {
            root: self.root@,
            repo_id: self.repo_id@,
            project_name: self.project_name@,
            target: self.target@,
            state_path: self.state_path@,
            session: self.session@,
        }
    }
}

/// The places and the session of the worktree `name` of a repository.
pub open spec fn location_of(
    paths: PathsModel,
    root: Seq<u8>,
    repo_id: Seq<char>,
    project_name: Seq<char>,
    name: Seq<char>,
) -> LocationModel {
    LocationModel {
        root,
        repo_id,
        project_name,
        target: layout::worktree_path_of(paths, repo_id, name),
        state_path: layout::session_state_path_of(paths, repo_id, name),
        session: identity::session_name_of(repo_id, name),
    }
}

/// No repository has been found yet.
pub open spec fn nowhere() -> LocationModel {
    LocationModel {
        root: Seq::empty(),
        repo_id: Seq::empty(),
        project_name: Seq::empty(),
        target: Seq::empty(),
        state_path: Seq::empty(),
        session: Seq::empty(),
    }
}

impl Location {
    fn unknown() -> (out: Location)
        ensures
            out@ == nowhere(),
    {
        let out: Location = Location {
            root: Vec::new(),
            repo_id: String::new(),
            project_name: String::new(),
            target: Vec::new(),
            state_path: Vec::new(),
            session: String::new(),
        };
        assert(out@ =~= nowhere());
        out
    }

    pub fn new(
        paths: &DavidPaths,
        root: Vec<u8>,
        repo_id: String,
        project_name: String,
        name: &str,
    ) -> (out: Location)
        ensures
            out@ == location_of(paths@, root@, repo_id@, project_name@, name@),
    {
        let target: Vec<u8> = paths.worktree_path(repo_id.as_str(), name);
        let state_path: Vec<u8> = paths.session_state_path(repo_id.as_str(), name);
        let session: String = session_name(repo_id.as_str(), name);
        Location { root, repo_id, project_name, target, state_path, session }
    }
}

/// An operation under way. The location is empty until the repository is found,
/// and so are agent and pane until they are known.
#[derive(Debug)]
pub struct Flow {
    pub setting: Setting,
    pub name: String,
    pub message: String,
    pub options: RunOptions,
    pub facts: Facts,
    pub location: Location,
    pub config: Config,
    /// The commit that the worktree is at.
    pub head: String,
    /// Where to delete the branch from.
    pub branch_root: Vec<u8>,
    pub agent_name: String,
    pub agent: Agent,
    pub pane: Option<String>,
    pub failures: Vec<(Step, ToolError)>,
}

/// The failure of a step, if it failed.
pub open spec fn failure_of(failures: Seq<(Step, ToolError)>, step: Step) -> Option<ErrorModel>
    decreases failures.len(),
{
    if failures.len() == 0 {
        None
    } else if failures.last().0 == step {
        Some(failures.last().1@)
    } else {
        failure_of(failures.drop_last(), step)
    }
}

/// The steps that failed, in the order in which they were taken.
pub open spec fn failed_steps(replies: Seq<(Step, Reply)>) -> Seq<Step>
    decreases replies.len(),
{
    if replies.len() == 0 {
        Seq::empty()
    } else if replies.last().1 == Reply::Failed {
        failed_steps(replies.drop_last()).push(replies.last().0)
    } else {
        failed_steps(replies.drop_last())
    }
}

/// The steps that have left a failure.
pub open spec fn failure_steps(failures: Seq<(Step, ToolError)>) -> Seq<Step> {
    failures.map_values(|failure: (Step, ToolError)| failure.0)
}

/// What the failure of a step has to say.
pub open spec fn complaint(failures: Seq<(Step, ToolError)>, step: Step) -> Seq<char> {
    match failure_of(failures, step) {
        Some(error) => error::error_text(error),
        None => Seq::empty(),
    }
}

/// What Git's answer means for a worktree that belongs on the branch `name`.
pub open spec fn found(name: Seq<char>, worktree: Option<WorktreeModel>) -> Reply {
    match worktree {
        None => Reply::No,
        Some(worktree) => match worktree.branch {
            Some(branch) => if branch == name {
                Reply::Yes
            } else {
                Reply::Other
            },
            None => Reply::Without,
        },
    }
}

/// What the record of a session means for the worktree it is taken for.
pub open spec fn recognized(
    state: StateModel,
    location: LocationModel,
    name: Seq<char>,
    recorded: Seq<u8>,
    requested: Seq<u8>,
) -> Reply {
    if !state::state_matches(
        state,
        location.repo_id,
        name,
        location.session,
        recorded,
        requested,
    ) {
        Reply::No
    } else if state.pane is Some {
        Reply::Yes
    } else {
        Reply::Without
    }
}

pub open spec fn selected(selection: SelectionModel) -> Reply {
    match selection {
        SelectionModel::Chosen(_) => Reply::Yes,
        SelectionModel::Pick => Reply::Without,
        SelectionModel::Unknown(_) => Reply::No,
        SelectionModel::Unavailable => Reply::Other,
    }
}

/// The agent and the status to list for the session of a worktree.
pub open spec fn status_of(facts: Map<Step, Reply>, agent: Seq<char>) -> (
    Seq<char>,
    SessionStatus,
) {
    if steps::reply(facts, Step::FindState) == Some(Reply::No) {
        ("-"@, SessionStatus::Unknown)
    } else if steps::reply(facts, Step::FindSession) == Some(Reply::No) {
        ("-"@, SessionStatus::Inactive)
    } else if steps::reply(facts, Step::CheckPane) == Some(Reply::Yes) {
        (agent, SessionStatus::Active)
    } else {
        ("-"@, SessionStatus::Active)
    }
}

impl Flow {
    /// The next step of the operation.
    pub open spec fn step(&self) -> Step {
        steps::next_step(self.setting, self.facts@)
    }

    /// The name was judged right, the steps were taken in their order, and the
    /// failures are those of the failed steps.
    pub open spec fn well_formed(&self) -> bool {
        &&& self.setting.valid_name == (layout::worktree_name_problem(self.name@) is None)
        &&& steps::is_course(self.setting, self.facts.replies@)
        &&& failure_steps(self.failures@) == failed_steps(self.facts.replies@)
        &&& forall|step: Step| #[trigger]
            steps::reply(self.facts@, step) == Some(Reply::Failed) ==> failure_of(
                self.failures@,
                step,
            ) is Some
    }

    /// The request, which no step changes.
    pub open spec fn same_request(&self, before: &Flow) -> bool {
        &&& self.setting == before.setting
        &&& self.name == before.name
        &&& self.message == before.message
        &&& self.options == before.options
    }

    /// What was found out about repository, agent and pane.
    pub open spec fn same_findings(&self, before: &Flow) -> bool {
        &&& self.location == before.location
        &&& self.config == before.config
        &&& self.head == before.head
        &&& self.branch_root == before.branch_root
        &&& self.agent_name == before.agent_name
        &&& self.agent == before.agent
        &&& self.pane == before.pane
    }

    /// The step that was next has been taken, with this reply and no failure.
    pub open spec fn advanced(&self, before: &Flow, reply: Reply) -> bool {
        &&& self.same_request(before)
        &&& self.facts@ == before.facts@.insert(before.step(), reply)
        &&& self.failures == before.failures
        &&& before.step() != Step::Find ==> self.head == before.head
        &&& before.step() != Step::FindRoot ==> self.branch_root == before.branch_root
        &&& before.well_formed() ==> self.well_formed()
    }

    /// The step that was next has failed with this error.
    pub open spec fn failed(&self, before: &Flow, error: ToolError) -> bool {
        &&& self.same_request(before)
        &&& self.same_findings(before)
        &&& self.facts@ == before.facts@.insert(before.step(), Reply::Failed)
        &&& self.failures@ == before.failures@.push((before.step(), error))
        &&& before.well_formed() ==> self.well_formed()
    }

    /// The step that was next asked a question that was answered like this.
    pub open spec fn answered(&self, before: &Flow, answer: Result<bool, ToolError>) -> bool {
        match answer {
            Ok(yes) => self.same_findings(before) && self.advanced(
                before,
                if yes {
                    Reply::Yes
                } else {
                    Reply::No
                },
            ),
            Err(error) => self.failed(before, error),
        }
    }

    /// The step that was next was for something to be done, with this result.
    pub open spec fn done(&self, before: &Flow, result: Result<(), ToolError>) -> bool {
        match result {
            Ok(()) => self.same_findings(before) && self.advanced(before, Reply::Yes),
            Err(error) => self.failed(before, error),
        }
    }

    /// The step that was next has brought this pane.
    pub open spec fn got_pane(&self, before: &Flow, pane: Option<String>) -> bool {
        &&& self.advanced(
            before,
            if pane is Some {
                Reply::Yes
            } else if before.step() == Step::FindPane {
                Reply::No
            } else {
                Reply::Without
            },
        )
        &&& self.location == before.location
        &&& self.config == before.config
        &&& self.head == before.head
        &&& self.agent_name == before.agent_name
        &&& self.agent == before.agent
        &&& self.pane == pane
    }

    /// A person has selected this agent.
    pub open spec fn got_agent(&self, before: &Flow, name: String, agent: Agent) -> bool {
        &&& self.advanced(before, Reply::Yes)
        &&& self.location == before.location
        &&& self.config == before.config
        &&& self.head == before.head
        &&& self.pane == before.pane
        &&& self.agent_name == name
        &&& self.agent@ == selection::launched(agent@, text::views(before.options.agent_args@))
    }

    /// What the operation ends with: nothing, or this error.
    pub open spec fn ending(&self, outcome: Outcome) -> Option<ErrorModel> {
        let name = self.name@;
        let session = self.location.session@;
        match outcome {
            Outcome::Done => None,
            Outcome::Reported => Some(self.failures@[0].1@),
            Outcome::SelectionUnavailable => Some(ErrorModel::AgentSelectionUnavailable),
            Outcome::BadName => match layout::worktree_name_problem(name) {
                Some(problem) => Some(ErrorModel::Message(problem)),
                None => None,
            },
            Outcome::Missing => said("managed worktree does not exist: "@ + name),
            Outcome::WrongBranch => said(
                "managed worktree "@ + name + " is not attached to its expected branch"@,
            ),
            Outcome::Occupied => said(
                "managed worktree path already exists but is not a Git worktree: "@
                    + bytes::utf8_lossy(self.location.target@),
            ),
            Outcome::DirtySource => said(
                "source repository has uncommitted changes; commit or stash them first"@,
            ),
            Outcome::Unmanaged => said(
                "tmux session "@ + session + " exists but is not managed by david"@,
            ),
            Outcome::Mismatch => said(
                "tmux session "@ + session + " metadata does not match the requested worktree"@,
            ),
            Outcome::StaleMismatch => said(
                "session metadata does not match the requested worktree "@ + name,
            ),
            Outcome::UnknownAgent => said(
                "agent "@ + config::debug_text(self.agent_name@) + " is not configured"@,
            ),
            Outcome::CommandMissing => said(
                "configured agent command is not available: "@ + self.agent.command@,
            ),
            Outcome::Exited => said(
                "agent session "@ + session + " exited before it could be attached"@,
            ),
            Outcome::DeadPane => said(
                "agent pane "@ + self.pane_text() + " in session "@ + session + " is dead"@,
            ),
            Outcome::UncheckedCleanup => said(
                complaint(self.failures@, Step::Configure)
                    + "; could not verify agent session cleanup: "@ + complaint(
                    self.failures@,
                    Step::CheckFailed,
                ),
            ),
            Outcome::FailedCleanup => said(
                complaint(self.failures@, Step::Configure)
                    + "; failed to clean up agent session: "@ + complaint(
                    self.failures@,
                    Step::KillFailed,
                ),
            ),
            Outcome::LeftMetadata => said(
                complaint(self.failures@, Step::Configure)
                    + "; failed to remove session metadata: "@ + complaint(
                    self.failures@,
                    Step::RemoveFailed,
                ),
            ),
            Outcome::UnmanagedAgent => said(
                "agent session "@ + session + " exists but is not managed by david"@,
            ),
            Outcome::NoSession => said(
                "managed agent session "@ + session + " is missing or not running"@,
            ),
            Outcome::AgentMismatch => said(
                "agent session "@ + session + " metadata does not match the requested worktree"@,
            ),
            Outcome::NotRunning => said(
                "managed agent session "@ + session + " is not running"@,
            ),
            Outcome::Undelivered => said(
                "failed to deliver prompt to agent session "@ + session + ": "@ + complaint(
                    self.failures@,
                    Step::Deliver,
                ),
            ),
            Outcome::DirtyWorktree => said(
                "worktree "@ + name + " has uncommitted changes; use --force to remove it"@,
            ),
            Outcome::MetadataMismatch => said(
                "session metadata does not match managed worktree "@ + name,
            ),
            Outcome::ChangedWhileStopping => said(
                "worktree "@ + name
                    + " changed while its agent was stopping; the session is stopped but the worktree was not removed"@,
            ),
        }
    }

    pub open spec fn pane_text(&self) -> Seq<char> {
        match self.pane {
            Some(pane) => pane@,
            None => Seq::empty(),
        }
    }

    /// The session as the status line shows it.
    pub open spec fn described_as(&self, metadata: SessionMetadata) -> bool {
        &&& metadata.project_name@ == self.location.project_name@
        &&& metadata.worktree_name@ == self.name@
        &&& metadata.agent_name@ == self.agent_name@
    }

    /// The record of the session.
    pub open spec fn record_model(&self, pane: Option<Seq<char>>) -> StateModel {
        StateModel {
            repo_id: self.location.repo_id@,
            worktree_name: self.name@,
            worktree_path: self.location.target@,
            branch: self.name@,
            session: self.location.session@,
            agent: self.agent_name@,
            pane,
        }
    }
}

pub open spec fn said(text: Seq<char>) -> Option<ErrorModel> {
    Some(ErrorModel::Message(text))
}

fn selection_reply(selection: &Selection) -> (reply: Reply)
    ensures
        reply == selected(selection@),
        reply != Reply::Failed,
{
    match selection {
        Selection::Chosen(_) => Reply::Yes,
        Selection::Pick => Reply::Without,
        Selection::Unknown(_) => Reply::No,
        Selection::Unavailable => Reply::Other,
    }
}

impl Flow {
    pub fn new(
        operation: Operation,
        name: &str,
        message: &str,
        options: RunOptions,
        force: bool,
    ) -> (flow: Flow)
        ensures
            flow.setting == (Setting {
                operation,
                valid_name: layout::worktree_name_problem(name@) is None,
                attach: options.attach,
                force,
            }),
            flow.name@ == name@,
            flow.message@ == message@,
            flow.options == options,
            flow.facts@ == Map::<Step, Reply>::empty(),
            flow.location@ == nowhere(),
            flow.config@ == (ConfigModel { agents: Seq::empty(), default_agent: None }),
            flow.head@.len() == 0,
            flow.branch_root@.len() == 0,
            flow.agent_name@.len() == 0,
            flow.agent@ == (AgentModel { command: Seq::empty(), args: Seq::empty() }),
            flow.pane is None,
            flow.failures@ == Seq::<(Step, ToolError)>::empty(),
            flow.well_formed(),
    {
        let valid_name: bool = validate_worktree_name(name).is_ok();
        let agent: Agent = Agent { command: String::new(), args: Vec::new() };
        assert(agent@ =~= (AgentModel { command: Seq::empty(), args: Seq::empty() }));
        let flow: Flow = Flow {
            setting: Setting { operation, valid_name, attach: options.attach, force },
            name: name.to_owned(),
            message: message.to_owned(),
            options,
            facts: Facts::new(),
            location: Location::unknown(),
            config: Config::default(),
            head: String::new(),
            branch_root: Vec::new(),
            agent_name: String::new(),
            agent,
            pane: None,
            failures: Vec::new(),
        };
        assert(failure_steps(flow.failures@) =~= Seq::<Step>::empty());
        flow
    }

    pub fn next(&self) -> (step: Step)
        ensures
            step == self.step(),
    {
        self.facts.next(self.setting)
    }

    fn advance(&mut self, reply: Reply)
        requires
            !(old(self).step() is Finish),
            reply != Reply::Failed,
        ensures
            final(self).advanced(old(self), reply),
            final(self).same_findings(old(self)),
    {
        let step: Step = self.next();
        self.facts.record(step, reply);
        proof {
            if old(self).well_formed() {
                steps::lemma_course_goes_on(self.setting, old(self).facts.replies@, step, reply);
            }
            assert(self.facts.replies@.drop_last() =~= old(self).facts.replies@);
        }
        assert forall|s: Step| #[trigger]
            steps::reply(self.facts@, s) == Some(Reply::Failed) implies steps::reply(
            old(self).facts@,
            s,
        ) == Some(Reply::Failed) by {
            assert(s != step);
        }
    }

    /// Takes note of the reply to a step that brings nothing else.
    pub fn record(&mut self, reply: Reply)
        requires
            !(old(self).step() is Finish),
            reply != Reply::Failed,
        ensures
            final(self).advanced(old(self), reply),
            final(self).same_findings(old(self)),
    {
        self.advance(reply);
    }

    /// Takes note that a step failed.
    pub fn record_failure(&mut self, error: ToolError)
        requires
            !(old(self).step() is Finish),
        ensures
            final(self).failed(old(self), error),
    {
        let step: Step = self.next();
        self.facts.record(step, Reply::Failed);
        self.failures.push((step, error));
        proof {
            if old(self).well_formed() {
                steps::lemma_course_goes_on(
                    self.setting,
                    old(self).facts.replies@,
                    step,
                    Reply::Failed,
                );
            }
            assert(self.facts.replies@.drop_last() =~= old(self).facts.replies@);
            assert(failure_steps(self.failures@) =~= failure_steps(old(self).failures@).push(step));
        }
        assert(self.failures@.drop_last() =~= old(self).failures@);
        assert forall|s: Step| #[trigger]
            steps::reply(self.facts@, s) == Some(Reply::Failed) && s != step implies steps::reply(
            old(self).facts@,
            s,
        ) == Some(Reply::Failed) by {}
    }

    /// Takes note of a question answered, or of the failure to answer it.
    pub fn record_answer(&mut self, answer: Result<bool, ToolError>)
        requires
            !(old(self).step() is Finish),
        ensures
            final(self).answered(old(self), answer),
    {
        match answer {
            Ok(true) => self.advance(Reply::Yes),
            Ok(false) => self.advance(Reply::No),
            Err(error) => self.record_failure(error),
        }
    }

    /// Takes note that something was done, or of the failure to do it.
    pub fn record_done(&mut self, result: Result<(), ToolError>)
        requires
            !(old(self).step() is Finish),
        ensures
            final(self).done(old(self), result),
    {
        match result {
            Ok(()) => self.advance(Reply::Yes),
            Err(error) => self.record_failure(error),
        }
    }

    /// Takes note of the repository.
    pub fn record_location(&mut self, location: Location)
        requires
            old(self).step() == Step::Locate,
        ensures
            final(self).advanced(old(self), Reply::Yes),
            final(self).location == location,
            final(self).config == old(self).config,
            final(self).head == old(self).head,
            final(self).agent_name == old(self).agent_name,
            final(self).agent == old(self).agent,
            final(self).pane == old(self).pane,
    {
        self.advance(Reply::Yes);
        self.location = location;
    }

    /// Takes note of what Git knows of the worktree.
    pub fn record_worktree(&mut self, worktree: Option<Worktree>)
        requires
            old(self).step() == Step::Find,
        ensures
            final(self).advanced(
                old(self),
                found(old(self).name@, worktree::optional_worktree(worktree)),
            ),
            final(self).location == old(self).location,
            final(self).config == old(self).config,
            final(self).head == (match worktree {
                Some(worktree) => worktree.head,
                None => old(self).head,
            }),
            final(self).agent_name == old(self).agent_name,
            final(self).agent == old(self).agent,
            final(self).pane == old(self).pane,
    {
        match worktree {
            None => self.advance(Reply::No),
            Some(worktree) => {
                let reply: Reply = match &worktree.branch {
                    Some(branch) => if same_text(branch.as_str(), self.name.as_str()) {
                        Reply::Yes
                    } else {
                        Reply::Other
                    },
                    None => Reply::Without,
                };
                self.advance(reply);
                self.head = worktree.head;
            },
        }
    }

    /// Decides where to delete the branch from; the paths are what the checkout
    /// and the worktree resolve to.
    pub fn record_root(
        &mut self,
        root_resolved: &[u8],
        target_resolved: &[u8],
        candidates: &Vec<Candidate>,
    )
        requires
            old(self).step() == Step::FindRoot,
        ensures
            match git::branch_root_of(
                old(self).location.root@,
                root_resolved@,
                target_resolved@,
                git::candidate_views(candidates@),
            ) {
                Some(directory) => {
                    &&& final(self).advanced(old(self), Reply::Yes)
                    &&& final(self).location == old(self).location
                    &&& final(self).config == old(self).config
                    &&& final(self).head == old(self).head
                    &&& final(self).branch_root@ == directory
                    &&& final(self).agent_name == old(self).agent_name
                    &&& final(self).agent == old(self).agent
                    &&& final(self).pane == old(self).pane
                },
                None => exists|error: ToolError| #[trigger]
                    final(self).failed(old(self), error) && error::is_message(
                        error,
                        "cannot remove the current worktree without another worktree to operate from"@,
                    ),
            },
    {
        let found: Result<Vec<u8>, ToolError> = branch_command_root(
            self.location.root.as_slice(),
            root_resolved,
            target_resolved,
            candidates,
        );
        match found {
            Ok(directory) => {
                self.advance(Reply::Yes);
                self.branch_root = directory;
            },
            Err(error) => self.record_failure(error),
        }
    }

    /// Takes note of the record of the session. The paths are what the recorded
    /// path and that of the worktree resolve to.
    pub fn record_state(&mut self, record: SessionState, recorded: &[u8], requested: &[u8])
        requires
            old(self).step() == Step::ReadState,
        ensures
            final(self).advanced(
                old(self),
                recognized(
                    record@,
                    old(self).location@,
                    old(self).name@,
                    recorded@,
                    requested@,
                ),
            ),
            final(self).location == old(self).location,
            final(self).config == old(self).config,
            final(self).head == old(self).head,
            final(self).agent_name == record.agent,
            final(self).agent == old(self).agent,
            final(self).pane == record.pane,
    {
        let reply: Reply = if !record.matches(
            self.location.repo_id.as_str(),
            self.name.as_str(),
            self.location.session.as_str(),
            recorded,
            requested,
        ) {
            Reply::No
        } else if record.pane.is_some() {
            Reply::Yes
        } else {
            Reply::Without
        };
        self.advance(reply);
        self.agent_name = record.agent;
        self.pane = record.pane;
    }

    /// Takes note of the pane of the agent.
    pub fn record_pane(&mut self, pane: Option<String>)
        requires
            old(self).step() == Step::FindPane || old(self).step() == Step::CreateSession,
        ensures
            final(self).got_pane(old(self), pane),
    {
        let reply: Reply = if pane.is_some() {
            Reply::Yes
        } else if self.next() == Step::FindPane {
            Reply::No
        } else {
            Reply::Without
        };
        self.advance(reply);
        self.pane = pane;
    }

    /// Selects an agent from a configuration; `variable` is the agent that the
    /// environment asks for.
    pub fn record_config(&mut self, config: Config, variable: &Option<String>)
        requires
            old(self).step() == Step::LoadConfig,
        ensures
            ({
                let chosen = selection::selection(
                    config@,
                    config::optional_text(old(self).options.agent),
                    config::optional_text(*variable),
                    old(self).options.interactive,
                );
                &&& final(self).advanced(old(self), selected(chosen))
                &&& final(self).agent_name@ == (match chosen {
                    SelectionModel::Chosen(entry) => entry.0,
                    SelectionModel::Unknown(name) => name,
                    _ => old(self).agent_name@,
                })
                &&& final(self).agent@ == (match chosen {
                    SelectionModel::Chosen(entry) => selection::launched(
                        entry.1,
                        text::views(old(self).options.agent_args@),
                    ),
                    _ => old(self).agent@,
                })
            }),
            final(self).location == old(self).location,
            final(self).config == config,
            final(self).head == old(self).head,
            final(self).pane == old(self).pane,
    {
        let selection: Selection = select_agent(
            &config,
            &self.options.agent,
            variable,
            self.options.interactive,
        );
        let reply: Reply = selection_reply(&selection);
        self.advance(reply);
        self.config = config;
        match selection {
            Selection::Chosen(entry) => {
                self.agent = with_arguments(&entry.agent, &self.options.agent_args);
                self.agent_name = entry.name;
            },
            Selection::Unknown(name) => {
                self.agent_name = name;
            },
            _ => {},
        }
    }

    /// Takes note of the agent that a person has selected.
    pub fn record_pick(&mut self, name: String, agent: Agent)
        requires
            old(self).step() == Step::PickAgent,
        ensures
            final(self).got_agent(old(self), name, agent),
    {
        let agent: Agent = with_arguments(&agent, &self.options.agent_args);
        self.advance(Reply::Yes);
        self.agent_name = name;
        self.agent = agent;
    }

    /// What the step asks of Git, and where: the steps that are a single command.
    pub open spec fn git_request(&self) -> Option<(Seq<u8>, GitModel)> {
        let root = self.location.root@;
        let target = self.location.target@;
        match self.step() {
            Step::Find | Step::FindRoot => Some((root, GitModel::Worktrees)),
            Step::CheckHead => Some((root, GitModel::Head)),
            Step::CheckSource => Some((root, GitModel::Status)),
            Step::CheckBranchName => Some((root, GitModel::CheckBranch(self.name@))),
            Step::AddWorktree => Some(
                (root, GitModel::AddWorktree { name: self.name@, path: target }),
            ),
            Step::CheckWorktree | Step::RecheckWorktree => Some((target, GitModel::Status)),
            Step::RemoveWorktree => Some(
                (root, GitModel::RemoveWorktree { path: target, force: self.setting.force }),
            ),
            Step::DeleteBranch => Some(
                (
                    self.branch_root@,
                    GitModel::DeleteBranch { name: self.name@, head: self.head@ },
                ),
            ),
            _ => None,
        }
    }

    /// The directory and the command for Git of a step that is a single command.
    pub fn git_command(&self) -> (out: Option<(Vec<u8>, GitCommand)>)
        ensures
            match out {
                Some((directory, command)) => self.git_request() == Some((directory@, command@)),
                None => self.git_request() is None,
            },
    {
        let root: &[u8] = self.location.root.as_slice();
        let target: &[u8] = self.location.target.as_slice();
        match self.next() {
            Step::Find | Step::FindRoot => Some((copy_bytes(root), GitCommand::Worktrees)),
            Step::CheckHead => Some((copy_bytes(root), GitCommand::Head)),
            Step::CheckSource => Some((copy_bytes(root), GitCommand::Status)),
            Step::CheckBranchName => Some(
                (copy_bytes(root), GitCommand::CheckBranch(self.name.clone())),
            ),
            Step::AddWorktree => Some(
                (
                    copy_bytes(root),
                    GitCommand::AddWorktree { name: self.name.clone(), path: copy_bytes(target) },
                ),
            ),
            Step::CheckWorktree | Step::RecheckWorktree => Some(
                (copy_bytes(target), GitCommand::Status),
            ),
            Step::RemoveWorktree => Some(
                (
                    copy_bytes(root),
                    GitCommand::RemoveWorktree {
                        path: copy_bytes(target),
                        force: self.setting.force,
                    },
                ),
            ),
            Step::DeleteBranch => Some(
                (
                    copy_bytes(self.branch_root.as_slice()),
                    GitCommand::DeleteBranch { name: self.name.clone(), head: self.head.clone() },
                ),
            ),
            _ => None,
        }
    }

    /// What the session says of itself.
    pub fn metadata(&self) -> (metadata: SessionMetadata)
        ensures
            self.described_as(metadata),
    {
        SessionMetadata {
            project_name: self.location.project_name.clone(),
            worktree_name: self.name.clone(),
            agent_name: self.agent_name.clone(),
        }
    }

    /// The record to write: before the session starts without a pane, and
    /// afterwards with the one that it got.
    pub fn session_record(&self) -> (record: SessionState)
        ensures
            record@ == self.record_model(
                if self.step() == Step::WriteState {
                    None
                } else {
                    config::optional_text(self.pane)
                },
            ),
    {
        let pane: Option<String> = if self.next() == Step::WriteState {
            None
        } else {
            match &self.pane {
                Some(pane) => Some(pane.clone()),
                None => None,
            }
        };
        SessionState {
            repo_id: self.location.repo_id.clone(),
            worktree_name: self.name.clone(),
            worktree_path: copy_bytes(self.location.target.as_slice()),
            branch: self.name.clone(),
            session: self.location.session.clone(),
            agent: self.agent_name.clone(),
            pane,
        }
    }

    /// The agent and the status to list.
    pub fn status(&self) -> (out: (String, SessionStatus))
        ensures
            (out.0@, out.1) == status_of(self.facts@, self.agent_name@),
    {
        if self.facts.reply(Step::FindState) == Some(Reply::No) {
            ("-".to_owned(), SessionStatus::Unknown)
        } else if self.facts.reply(Step::FindSession) == Some(Reply::No) {
            ("-".to_owned(), SessionStatus::Inactive)
        } else if self.facts.reply(Step::CheckPane) == Some(Reply::Yes) {
            (self.agent_name.clone(), SessionStatus::Active)
        } else {
            ("-".to_owned(), SessionStatus::Active)
        }
    }

    fn complaint(&self, step: Step) -> (out: String)
        ensures
            out@ == complaint(self.failures@, step),
    {
        let ghost all = self.failures@;
        let mut left: usize = self.failures.len();
        assert(all.take(left as int) =~= all);
        while left > 0
            invariant
                all == self.failures@,
                left <= all.len(),
                failure_of(all.take(left as int), step) == failure_of(all, step),
            decreases left,
        {
            assert(all.take(left as int).last() == all[left - 1]);
            if self.failures[left - 1].0 == step {
                return self.failures[left - 1].1.text();
            }
            assert(all.take(left as int).drop_last() =~= all.take(left - 1));
            left = left - 1;
        }
        let none: String = String::new();
        assert(none@ =~= Seq::<char>::empty());
        none
    }

    /// How the operation ends.
    pub fn finish(&self) -> (result: Result<(), ToolError>)
        requires
            self.well_formed(),
            self.step() is Finish,
        ensures
            match result {
                Ok(()) => self.step() == steps::done(),
                Err(error) => self.ending(self.step()->Finish_0) == Some(error@),
            },
    {
        let outcome: Outcome = match self.next() {
            Step::Finish(outcome) => outcome,
            _ => Outcome::Done,
        };
        let name: &str = self.name.as_str();
        let session: &str = self.location.session.as_str();
        let error: ToolError = match outcome {
            Outcome::Done => {
                return Ok(());
            },
            Outcome::Reported => {
                proof {
                    lemma_reports_have_failures(self.setting, self.facts@);
                    let step = choose|step: Step| #[trigger]
                        steps::reply(self.facts@, step) == Some(Reply::Failed);
                    assert(failure_of(self.failures@, step) is Some);
                }
                self.failures[0].1.copy()
            },
            Outcome::SelectionUnavailable => ToolError::AgentSelectionUnavailable,
            Outcome::BadName => {
                match validate_worktree_name(name) {
                    Err(error) => error,
                    Ok(()) => {
                        proof {
                            lemma_bad_names(self.setting, self.facts@);
                        }
                        return Ok(());
                    },
                }
            },
            Outcome::Missing => message2("managed worktree does not exist: ", name),
            Outcome::WrongBranch => message3(
                "managed worktree ",
                name,
                " is not attached to its expected branch",
            ),
            Outcome::Occupied => message2(
                "managed worktree path already exists but is not a Git worktree: ",
                lossy_text(self.location.target.as_slice()).as_str(),
            ),
            Outcome::DirtySource => message(
                "source repository has uncommitted changes; commit or stash them first",
            ),
            Outcome::Unmanaged => message3(
                "tmux session ",
                session,
                " exists but is not managed by david",
            ),
            Outcome::Mismatch => message3(
                "tmux session ",
                session,
                " metadata does not match the requested worktree",
            ),
            Outcome::StaleMismatch => message2(
                "session metadata does not match the requested worktree ",
                name,
            ),
            Outcome::UnknownAgent => message3(
                "agent ",
                quoted(self.agent_name.as_str()).as_str(),
                " is not configured",
            ),
            Outcome::CommandMissing => message2(
                "configured agent command is not available: ",
                self.agent.command.as_str(),
            ),
            Outcome::Exited => message3(
                "agent session ",
                session,
                " exited before it could be attached",
            ),
            Outcome::DeadPane => self.dead_pane(),
            Outcome::UncheckedCleanup => message3(
                self.complaint(Step::Configure).as_str(),
                "; could not verify agent session cleanup: ",
                self.complaint(Step::CheckFailed).as_str(),
            ),
            Outcome::FailedCleanup => message3(
                self.complaint(Step::Configure).as_str(),
                "; failed to clean up agent session: ",
                self.complaint(Step::KillFailed).as_str(),
            ),
            Outcome::LeftMetadata => message3(
                self.complaint(Step::Configure).as_str(),
                "; failed to remove session metadata: ",
                self.complaint(Step::RemoveFailed).as_str(),
            ),
            Outcome::UnmanagedAgent => message3(
                "agent session ",
                session,
                " exists but is not managed by david",
            ),
            Outcome::NoSession => message3(
                "managed agent session ",
                session,
                " is missing or not running",
            ),
            Outcome::AgentMismatch => message3(
                "agent session ",
                session,
                " metadata does not match the requested worktree",
            ),
            Outcome::NotRunning => message3("managed agent session ", session, " is not running"),
            Outcome::Undelivered => message4(
                "failed to deliver prompt to agent session ",
                session,
                ": ",
                self.complaint(Step::Deliver).as_str(),
            ),
            Outcome::DirtyWorktree => message3(
                "worktree ",
                name,
                " has uncommitted changes; use --force to remove it",
            ),
            Outcome::MetadataMismatch => message2(
                "session metadata does not match managed worktree ",
                name,
            ),
            Outcome::ChangedWhileStopping => message3(
                "worktree ",
                name,
                " changed while its agent was stopping; the session is stopped but the worktree was not removed",
            ),
        };
        Err(error)
    }

    fn dead_pane(&self) -> (error: ToolError)
        ensures
            error::is_message(
                error,
                "agent pane "@ + self.pane_text() + " in session "@ + self.location.session@
                    + " is dead"@,
            ),
    {
        let mut text: String = "agent pane ".to_owned();
        if let Some(pane) = &self.pane {
            text.append(pane.as_str());
        }
        text.append(" in session ");
        text.append(self.location.session.as_str());
        text.append(" is dead");
        assert(text@ =~= "agent pane "@ + self.pane_text() + " in session "@
            + self.location.session@ + " is dead"@);
        ToolError::Message(text)
    }
}

/// One step of an operation has been taken, well or not.
pub open spec fn goes_on(before: Flow, after: Flow) -> bool {
    ||| exists|reply: Reply| reply != Reply::Failed && #[trigger] after.advanced(&before, reply)
    ||| exists|error: ToolError| #[trigger] after.failed(&before, error)
}

/// An operation as it goes on, step by step.
pub open spec fn is_history(flows: Seq<Flow>) -> bool {
    &&& flows.len() > 0
    &&& forall|i: int| 0 <= i < flows.len() - 1 ==> goes_on(#[trigger] flows[i], flows[i + 1])
}

/// The failure that is reported is that of the first step that failed.
pub proof fn the_first_failure_is_reported(flow: Flow)
    requires
        flow.well_formed(),
        flow.step() == Step::Finish(Outcome::Reported),
    ensures
        failed_steps(flow.facts.replies@).len() > 0,
        flow.failures@.len() > 0,
        flow.failures@[0].0 == failed_steps(flow.facts.replies@)[0],
        flow.ending(Outcome::Reported) == Some(flow.failures@[0].1@),
{
    lemma_reports_have_failures(flow.setting, flow.facts@);
    let step = choose|step: Step| #[trigger]
        steps::reply(flow.facts@, step) == Some(Reply::Failed);
    assert(failure_of(flow.failures@, step) is Some);
    assert(failure_steps(flow.failures@)[0] == flow.failures@[0].0);
}

/// The error of the first step that fails stays the first of all, and an operation
/// that ends by passing on a failure is answered with exactly that error.
pub proof fn first_errors_are_answered(flows: Seq<Flow>, at: int, error: ToolError)
    requires
        is_history(flows),
        0 <= at < flows.len() - 1,
        flows[at].failures@.len() == 0,
        flows[at + 1].failed(&flows[at], error),
    ensures
        flows.last().failures@.len() > 0,
        flows.last().failures@[0] == (flows[at].step(), error),
        flows.last().step() == Step::Finish(Outcome::Reported) ==> flows.last().ending(
            Outcome::Reported,
        ) == Some(error@),
{
    lemma_first_failure_stays(flows, at + 1, flows.len() - 1);
}

proof fn lemma_first_failure_stays(flows: Seq<Flow>, from: int, to: int)
    requires
        is_history(flows),
        0 <= from <= to < flows.len(),
        flows[from].failures@.len() > 0,
    ensures
        flows[to].failures@.len() > 0,
        flows[to].failures@[0] == flows[from].failures@[0],
    decreases to - from,
{
    if from < to {
        lemma_first_failure_stays(flows, from, to - 1);
        assert(goes_on(flows[to - 1], flows[to - 1 + 1]));
    }
}

/// The branch is deleted under the name of the worktree and only at the commit
/// that the worktree was at when Git was asked for it.
pub proof fn branches_go_at_the_commit_that_was_found(flows: Seq<Flow>, at: int)
    requires
        is_history(flows),
        0 <= at < flows.len() - 1,
        flows[at].step() == Step::Find,
        flows.last().step() == Step::DeleteBranch,
    ensures
        flows.last().git_request() == Some(
            (
                flows.last().branch_root@,
                GitModel::DeleteBranch { name: flows[at].name@, head: flows[at + 1].head@ },
            ),
        ),
        git::git_arguments((flows.last().git_request()->0).1) == bytes::arguments(
            seq!["update-ref"@, "-d"@, "refs/heads/"@ + flows[at].name@, flows[at + 1].head@],
        ),
{
    assert(goes_on(flows[at], flows[at + 1]));
    lemma_found_commits_stay(flows, at + 1, flows.len() - 1);
}

proof fn lemma_found_commits_stay(flows: Seq<Flow>, from: int, to: int)
    requires
        is_history(flows),
        0 <= from <= to < flows.len(),
        flows[from].facts@.dom().contains(Step::Find),
    ensures
        flows[to].facts@.dom().contains(Step::Find),
        flows[to].head == flows[from].head,
        flows[to].name == flows[from].name,
    decreases to - from,
{
    if from < to {
        lemma_found_commits_stay(flows, from, to - 1);
        let before = flows[to - 1];
        assert(goes_on(flows[to - 1], flows[to - 1 + 1]));
        order::every_step_is_taken_once(before.setting, before.facts@);
    }
}

/// The record that an operation writes is, once read back, recognized as that of
/// its worktree, with its agent and its pane, by every operation on the same
/// worktree of the same repository.
pub proof fn recorded_sessions_are_recognized(
    writer: Flow,
    pane: Option<Seq<char>>,
    reader: Flow,
    resolved: Seq<u8>,
)
    requires
        state::storable(writer.record_model(pane)),
        reader.name@ == writer.name@,
        reader.location@ == writer.location@,
    ensures
        ({
            let read = state::decoded(state::encoded(writer.record_model(pane)));
            &&& read is Ok
            &&& read->Ok_0.agent == writer.agent_name@
            &&& read->Ok_0.pane == pane
            &&& recognized(read->Ok_0, reader.location@, reader.name@, resolved, resolved) == (
            if pane is Some {
                Reply::Yes
            } else {
                Reply::Without
            })
        }),
{
    state::stored_sessions_are_read_back(writer.record_model(pane));
}

/// A session is listed as active only if it is there, recorded for its worktree,
/// and says the same of itself; its agent is listed only if it is alive.
pub proof fn only_live_agents_are_listed(flow: Flow)
    requires
        flow.setting.operation == Operation::Status,
        flow.step() == steps::done(),
        status_of(flow.facts@, flow.agent_name@).1 == SessionStatus::Active,
    ensures
        steps::passed(flow.facts@, Step::FindState),
        steps::passed(flow.facts@, Step::FindSession),
        steps::passed(flow.facts@, Step::ReadState),
        steps::taken(flow.facts@, Step::CheckMetadata),
        status_of(flow.facts@, flow.agent_name@).0 == "-"@ || steps::passed(
            flow.facts@,
            Step::CheckPane,
        ),
{
    reveal(steps::next_step);
}

/// A failure is reported only where a step has failed.
proof fn lemma_reports_have_failures(setting: Setting, facts: Map<Step, Reply>)
    requires
        steps::next_step(setting, facts) == Step::Finish(Outcome::Reported),
    ensures
        exists|step: Step| #[trigger] steps::reply(facts, step) == Some(Reply::Failed),
{
    reveal(steps::next_step);
}

proof fn lemma_bad_names(setting: Setting, facts: Map<Step, Reply>)
    requires
        steps::next_step(setting, facts) == Step::Finish(Outcome::BadName),
    ensures
        !setting.valid_name,
{
    reveal(steps::next_step);
}

/// What Git knows of a worktree says whether it is on its own branch, on another, on none,
/// or unknown.
pub proof fn worktrees_are_judged_by_their_branch(name: Seq<char>, worktree: WorktreeModel)
    ensures
        found(name, None) == Reply::No,
        worktree.branch is None ==> found(name, Some(worktree)) == Reply::Without,
        worktree.branch == Some(name) ==> found(name, Some(worktree)) == Reply::Yes,
        worktree.branch is Some && worktree.branch != Some(name) ==> found(name, Some(worktree))
            == Reply::Other,
{
}

/// A record is that of the worktree if it belongs to it, and it says then whether it names
/// the pane of the agent.
pub proof fn records_are_judged_by_what_they_name(
    state: StateModel,
    location: LocationModel,
    name: Seq<char>,
    recorded: Seq<u8>,
    requested: Seq<u8>,
)
    ensures
        ({
            let reply = recognized(state, location, name, recorded, requested);
            let belongs = state.repo_id == location.repo_id && state.worktree_name == name
                && state.branch == name && state.session == location.session
                && crate::path::same_components(recorded, requested);
            &&& !belongs ==> reply == Reply::No
            &&& belongs && state.pane is Some ==> reply == Reply::Yes
            &&& belongs && state.pane is None ==> reply == Reply::Without
        }),
{
}

/// A choice is a reply, whatever was chosen.
pub proof fn choices_are_replies(entry: (Seq<char>, AgentModel), name: Seq<char>)
    ensures
        selected(SelectionModel::Chosen(entry)) == Reply::Yes,
        selected(SelectionModel::Pick) == Reply::Without,
        selected(SelectionModel::Unknown(name)) == Reply::No,
        selected(SelectionModel::Unavailable) == Reply::Other,
{
}

/// Of a worktree without a record nothing is known; without a session it is inactive; and
/// otherwise it is active, with the name of its agent if its pane is alive.
pub proof fn sessions_are_listed_as_they_are(facts: Map<Step, Reply>, agent: Seq<char>)
    ensures
        ({
            let says = |step: Step, reply: Reply| facts.dom().contains(step) && facts[step] == reply;
            let (shown, status) = status_of(facts, agent);
            &&& says(Step::FindState, Reply::No) ==> status == SessionStatus::Unknown && shown
                == "-"@
            &&& !says(Step::FindState, Reply::No) && says(Step::FindSession, Reply::No) ==> status
                == SessionStatus::Inactive && shown == "-"@
            &&& !says(Step::FindState, Reply::No) && !says(Step::FindSession, Reply::No) ==> status
                == SessionStatus::Active && shown == (if says(Step::CheckPane, Reply::Yes) {
                agent
            } else {
                "-"@
            })
        }),
{
}

/// The places of a worktree follow from its repository and its name.
pub proof fn places_follow_from_repository_and_name(
    paths: PathsModel,
    root: Seq<u8>,
    repo_id: Seq<char>,
    project_name: Seq<char>,
    name: Seq<char>,
)
    ensures
        ({
            let location = location_of(paths, root, repo_id, project_name, name);
            &&& location.root == root
            &&& location.repo_id == repo_id
            &&& location.project_name == project_name
            &&& location.target == layout::below(layout::below(paths.worktrees, repo_id), name)
            &&& location.state_path == layout::below(
                paths.sessions,
                repo_id + "-"@ + identity::hash_text(name) + ".state"@,
            )
            &&& location.session == "david-"@ + repo_id + "-"@ + identity::hash_text(name)
        }),
{
}

/// A record names the worktree, its branch, its session and its agent as they are.
pub proof fn records_name_what_they_are_of(flow: Flow, pane: Option<Seq<char>>)
    ensures
        ({
            let record = flow.record_model(pane);
            &&& record.repo_id == flow.location.repo_id@
            &&& record.worktree_name == flow.name@ && record.branch == flow.name@
            &&& record.worktree_path == flow.location.target@
            &&& record.session == flow.location.session@
            &&& record.agent == flow.agent_name@
            &&& record.pane == pane
        }),
{
}

/// What came of a step is taken note of as it came.
pub proof fn replies_are_taken_note_of(
    before: Flow,
    after: Flow,
    reply: Reply,
    error: ToolError,
    pane: Option<String>,
)
    ensures
        after.advanced(&before, reply) ==> after.facts@ == before.facts@.insert(
            before.step(),
            reply,
        ) && after.failures == before.failures && after.name == before.name && after.message
            == before.message && after.options == before.options && after.setting
            == before.setting,
        after.failed(&before, error) ==> after.facts@ == before.facts@.insert(
            before.step(),
            Reply::Failed,
        ) && after.failures@ == before.failures@.push((before.step(), error)) && after.location
            == before.location && after.agent == before.agent && after.pane == before.pane
            && after.head == before.head && after.agent_name == before.agent_name,
        after.answered(&before, Ok(true)) ==> after.facts@ == before.facts@.insert(
            before.step(),
            Reply::Yes,
        ) && after.failures == before.failures,
        after.answered(&before, Ok(false)) ==> after.facts@ == before.facts@.insert(
            before.step(),
            Reply::No,
        ) && after.failures == before.failures,
        after.answered(&before, Err(error)) ==> after.failed(&before, error),
        after.done(&before, Ok(())) ==> after.facts@ == before.facts@.insert(
            before.step(),
            Reply::Yes,
        ) && after.failures == before.failures,
        after.done(&before, Err(error)) ==> after.failed(&before, error),
        after.got_pane(&before, pane) ==> after.pane == pane && after.facts@
            == before.facts@.insert(
            before.step(),
            if pane is Some {
                Reply::Yes
            } else if before.step() == Step::FindPane {
                Reply::No
            } else {
                Reply::Without
            },
        ) && after.agent == before.agent && after.location == before.location,
{
}

/// The agent that a person has selected is started with its own arguments and those for
/// the run behind them.
pub proof fn picked_agents_are_started(before: Flow, after: Flow, name: String, agent: Agent)
    requires
        after.got_agent(&before, name, agent),
    ensures
        after.agent_name == name,
        after.agent@.command == agent@.command,
        after.agent@.args == agent@.args + text::views(before.options.agent_args@),
        after.facts@ == before.facts@.insert(before.step(), Reply::Yes),
{
}

/// What Git is asked for at a step, and where.
pub proof fn git_is_asked_for_the_step(flow: Flow)
    ensures
        ({
            let root = flow.location.root@;
            let target = flow.location.target@;
            let asks = |command: GitModel| flow.git_request() == Some((root, command));
            &&& flow.step() == Step::Find ==> asks(GitModel::Worktrees)
            &&& flow.step() == Step::FindRoot ==> asks(GitModel::Worktrees)
            &&& flow.step() == Step::CheckHead ==> asks(GitModel::Head)
            &&& flow.step() == Step::CheckSource ==> asks(GitModel::Status)
            &&& flow.step() == Step::CheckBranchName ==> asks(GitModel::CheckBranch(flow.name@))
            &&& flow.step() == Step::AddWorktree ==> asks(
                GitModel::AddWorktree { name: flow.name@, path: target },
            )
            &&& flow.step() == Step::RemoveWorktree ==> asks(
                GitModel::RemoveWorktree { path: target, force: flow.setting.force },
            )
            &&& flow.step() == Step::CheckWorktree || flow.step() == Step::RecheckWorktree
                ==> flow.git_request() == Some((target, GitModel::Status))
            &&& flow.step() == Step::DeleteBranch ==> flow.git_request() == Some(
                (
                    flow.branch_root@,
                    GitModel::DeleteBranch { name: flow.name@, head: flow.head@ },
                ),
            )
        }),
{
}

/// What an operation says when it does not end well.
pub proof fn refusals_are_told(flow: Flow)
    ensures
        ({
            let name = flow.name@;
            let session = flow.location.session@;
            let tells = |outcome: Outcome, text: Seq<char>|
                flow.ending(outcome) == Some(ErrorModel::Message(text));
            &&& flow.ending(Outcome::Done) is None
            &&& flow.ending(Outcome::SelectionUnavailable) == Some(
                ErrorModel::AgentSelectionUnavailable,
            )
            &&& layout::worktree_name_problem(name) matches Some(problem) ==> tells(
                Outcome::BadName,
                problem,
            )
            &&& tells(Outcome::Missing, "managed worktree does not exist: "@ + name)
            &&& tells(
                Outcome::WrongBranch,
                "managed worktree "@ + name + " is not attached to its expected branch"@,
            )
            &&& tells(
                Outcome::Occupied,
                "managed worktree path already exists but is not a Git worktree: "@
                    + bytes::utf8_lossy(flow.location.target@),
            )
            &&& tells(
                Outcome::DirtySource,
                "source repository has uncommitted changes; commit or stash them first"@,
            )
            &&& tells(
                Outcome::Unmanaged,
                "tmux session "@ + session + " exists but is not managed by david"@,
            )
            &&& tells(
                Outcome::Mismatch,
                "tmux session "@ + session + " metadata does not match the requested worktree"@,
            )
            &&& tells(
                Outcome::StaleMismatch,
                "session metadata does not match the requested worktree "@ + name,
            )
            &&& tells(
                Outcome::UnknownAgent,
                "agent "@ + config::debug_text(flow.agent_name@) + " is not configured"@,
            )
            &&& tells(
                Outcome::CommandMissing,
                "configured agent command is not available: "@ + flow.agent@.command,
            )
            &&& tells(
                Outcome::Exited,
                "agent session "@ + session + " exited before it could be attached"@,
            )
            &&& flow.pane matches Some(pane) ==> tells(
                Outcome::DeadPane,
                "agent pane "@ + pane@ + " in session "@ + session + " is dead"@,
            )
            &&& tells(
                Outcome::UnmanagedAgent,
                "agent session "@ + session + " exists but is not managed by david"@,
            )
            &&& tells(
                Outcome::NoSession,
                "managed agent session "@ + session + " is missing or not running"@,
            )
            &&& tells(
                Outcome::AgentMismatch,
                "agent session "@ + session + " metadata does not match the requested worktree"@,
            )
            &&& tells(
                Outcome::NotRunning,
                "managed agent session "@ + session + " is not running"@,
            )
            &&& tells(
                Outcome::DirtyWorktree,
                "worktree "@ + name + " has uncommitted changes; use --force to remove it"@,
            )
            &&& tells(
                Outcome::MetadataMismatch,
                "session metadata does not match managed worktree "@ + name,
            )
            &&& tells(
                Outcome::ChangedWhileStopping,
                "worktree "@ + name
                    + " changed while its agent was stopping; the session is stopped but the worktree was not removed"@,
            )
        }),
{
}

/// What a failure of a step, and of the cleaning up behind it, is told as.
pub proof fn failures_behind_failures_are_told(
    flow: Flow,
    first: ErrorModel,
    second: ErrorModel,
    step: Step,
)
    requires
        failure_of(flow.failures@, Step::Configure) == Some(first),
        failure_of(flow.failures@, step) == Some(second),
    ensures
        ({
            let text = |middle: Seq<char>|
                Some(
                    ErrorModel::Message(
                        error::error_text(first) + middle + error::error_text(second),
                    ),
                );
            &&& step == Step::CheckFailed ==> flow.ending(Outcome::UncheckedCleanup) == text(
                "; could not verify agent session cleanup: "@,
            )
            &&& step == Step::KillFailed ==> flow.ending(Outcome::FailedCleanup) == text(
                "; failed to clean up agent session: "@,
            )
            &&& step == Step::RemoveFailed ==> flow.ending(Outcome::LeftMetadata) == text(
                "; failed to remove session metadata: "@,
            )
        }),
{
}

/// A prompt that could not be delivered is told with the reason.
pub proof fn undelivered_prompts_are_told(flow: Flow, e: ErrorModel)
    requires
        failure_of(flow.failures@, Step::Deliver) == Some(e),
    ensures
        flow.ending(Outcome::Undelivered) == Some(
            ErrorModel::Message(
                "failed to deliver prompt to agent session "@ + flow.location.session@ + ": "@
                    + error::error_text(e),
            ),
        ),
{
}

/// The failure of a step is the one that it has left.
pub proof fn failures_are_kept_by_step(
    failures: Seq<(Step, ToolError)>,
    step: Step,
    error: ToolError,
    other: Step,
)
    ensures
        failure_of(failures.push((step, error)), step) == Some(error@),
        other != step ==> failure_of(failures.push((step, error)), other) == failure_of(
            failures,
            other,
        ),
        failure_of(Seq::empty(), step) is None,
{
    assert(failures.push((step, error)).drop_last() =~= failures);
}

/// What a session says of itself is the project, the worktree and the agent.
pub proof fn sessions_say_what_they_are(flow: Flow, metadata: SessionMetadata)
    ensures
        flow.described_as(metadata) <==> metadata.project_name@ == flow.location.project_name@
            && metadata.worktree_name@ == flow.name@ && metadata.agent_name@ == flow.agent_name@,
{
}

/// What a step did not ask for stays as it was: a pane changes nothing but the pane, an
/// agent nothing but the agent, and answers, acts and failures nothing that was found.
pub proof fn findings_are_kept(
    before: Flow,
    after: Flow,
    pane: Option<String>,
    name: String,
    agent: Agent,
    answer: Result<bool, ToolError>,
    result: Result<(), ToolError>,
)
    ensures
        after.got_pane(&before, pane) ==> after.location == before.location && after.config
            == before.config && after.head == before.head && after.agent_name == before.agent_name
            && after.agent == before.agent && after.name == before.name && after.options
            == before.options && after.message == before.message && after.failures
            == before.failures,
        after.got_agent(&before, name, agent) ==> after.location == before.location
            && after.config == before.config && after.head == before.head && after.pane
            == before.pane && after.agent_name == name && after.name == before.name
            && after.options == before.options && after.message == before.message
            && after.failures == before.failures,
        after.answered(&before, answer) || after.done(&before, result) ==> after.location
            == before.location && after.config == before.config && after.head == before.head
            && after.branch_root == before.branch_root && after.agent_name == before.agent_name
            && after.agent == before.agent && after.pane == before.pane && after.name
            == before.name && after.options == before.options && after.message == before.message
            && after.setting == before.setting,
{
}

} // verus!
