//! The operations of the tool, and the part of them that sessions and agents are
//! asked for.

use vstd::prelude::*;

use crate::config::{Agent, AgentModel, Config, ConfigModel};
use crate::error;
use crate::error::{message, ToolError};
use crate::flow;
use crate::flow::{Flow, Location};
use crate::layout;
use crate::layout::DavidPaths;
use crate::listing;
use crate::listing::{list_table, write_porcelain_list, ManagedWorktree};
use crate::selection::RunOptions;
use crate::state::SessionMetadata;
use crate::steps::{Operation, Reply, Setting, Step};

verus! {

/// Someone who selects an agent.
pub trait AgentPicker {
    fn pick(&self, config: &Config) -> Result<(String, Agent), ToolError>;
}

/// What keeps agents running.
pub trait SessionBackend {
    fn ensure_available(&self) -> Result<(), ToolError>;

    fn has_session(&self, name: &str) -> Result<bool, ToolError>;

    fn create_session(&self, name: &str, cwd: &[u8], agent: &Agent) -> Result<(), ToolError>;

    /// Starts a session and tells which pane its agent has.
    fn create_session_with_pane(&self, name: &str, cwd: &[u8], agent: &Agent) -> (pane: Result<
        Option<String>,
        ToolError,
    >)
        default_ensures
            exists|created: Result<(), ToolError>| #[trigger]
                call_ensures(Self::create_session, (self, name, cwd, agent), created) && (
                match created {
                    Ok(_) => call_ensures(Self::agent_pane, (self, name), pane),
                    Err(error) => pane == Err::<Option<String>, ToolError>(error),
                }),
    {
        match self.create_session(name, cwd, agent) {
            Ok(()) => self.agent_pane(name),
            Err(error) => Err(error),
        }
    }

    fn agent_pane(&self, _name: &str) -> (pane: Result<Option<String>, ToolError>)
        default_ensures
            pane == Ok::<Option<String>, ToolError>(None),
    {
        Ok(None)
    }

    fn pane_is_alive(&self, _name: &str, _pane: &str) -> (alive: Result<bool, ToolError>)
        default_ensures
            alive == Ok::<bool, ToolError>(true),
    {
        Ok(true)
    }

    /// Tells a session what it is, and gives it its shortcuts and its looks.
    fn configure_session(&self, _name: &str, _metadata: &SessionMetadata) -> (result: Result<
        (),
        ToolError,
    >)
        default_ensures
            result is Ok,
    {
        Ok(())
    }

    /// Gives a session that knows what it is its shortcuts and its looks.
    fn configure_session_affordances(&self, name: &str, metadata: &SessionMetadata) -> (result:
        Result<(), ToolError>)
        default_ensures
            call_ensures(Self::configure_session, (self, name, metadata), result),
    {
        self.configure_session(name, metadata)
    }

    /// Fails unless the session says exactly this of itself.
    fn validate_session_metadata(&self, _name: &str, _metadata: &SessionMetadata) -> (result: Result<
        (),
        ToolError,
    >)
        default_ensures
            result is Ok,
    {
        Ok(())
    }

    /// Whether the agent of a session runs already.
    fn agent_started(&self, _name: &str) -> (started: Result<bool, ToolError>)
        default_ensures
            started == Ok::<bool, ToolError>(true),
    {
        Ok(true)
    }

    /// Claims the start of the agent; true for the first who does.
    fn reserve_agent_start(&self, _name: &str) -> (reserved: Result<bool, ToolError>)
        default_ensures
            reserved == Ok::<bool, ToolError>(true),
    {
        Ok(true)
    }

    fn attach(&self, name: &str) -> Result<(), ToolError>;

    /// Attaches to a session whose agent has just been selected.
    fn attach_with_agent(&self, name: &str, _pane: &str, _agent: &Agent) -> (result: Result<
        (),
        ToolError,
    >)
        default_ensures
            call_ensures(Self::attach, (self, name), result),
    {
        self.attach(name)
    }

    fn deliver_prompt(&self, _name: &str, _message: &str) -> (result: Result<(), ToolError>)
        default_ensures
            result matches Err(e) && error::is_message(
                e,
                "session backend does not support prompt delivery"@,
            ),
    {
        Err(message("session backend does not support prompt delivery"))
    }

    fn deliver_prompt_to(&self, name: &str, message: &str, _pane: &Option<String>) -> (result:
        Result<(), ToolError>)
        default_ensures
            call_ensures(Self::deliver_prompt, (self, name, message), result),
    {
        self.deliver_prompt(name, message)
    }

    /// Removes what a session has left behind.
    fn clear_session_affordances(&self, _name: &str) -> (result: Result<(), ToolError>)
        default_ensures
            result is Ok,
    {
        Ok(())
    }

    fn kill_session(&self, name: &str) -> Result<(), ToolError>;
}

/// Steps that sessions or the selection of an agent are asked for. The others
/// are for files and for Git.
pub open spec fn on_sessions(step: Step) -> bool {
    ||| step == Step::EnsureAvailable
    ||| asks_for_session(step)
    ||| step == Step::CheckMetadata
    ||| step == Step::FindPane
    ||| step == Step::CheckPane
    ||| step == Step::CheckAgent
    ||| step == Step::Adorn
    ||| step == Step::Configure
    ||| step == Step::Attach
    ||| step == Step::AttachAgent
    ||| step == Step::CreateSession
    ||| step == Step::KillFailed
    ||| step == Step::StopSession
    ||| step == Step::DropSession
    ||| step == Step::Deliver
    ||| step == Step::PickAgent
}

pub open spec fn asks_for_session(step: Step) -> bool {
    ||| step == Step::FindSession
    ||| step == Step::CheckStarted
    ||| step == Step::CheckRecorded
    ||| step == Step::CheckFailed
    ||| step == Step::CheckConfigured
}

/// A tool with its directories, its sessions and someone who selects agents.
pub struct App<S, P> {
    pub paths: DavidPaths,
    pub sessions: S,
    pub picker: P,
}

fn no_options() -> (options: RunOptions)
    ensures
        !options.attach,
{
    RunOptions { agent: None, agent_args: Vec::new(), interactive: false, attach: false }
}

/// An operation that is about to begin: nothing has been found out yet, and
/// nothing has failed.
pub open spec fn begins(flow: Flow, operation: Operation, name: Seq<char>, attach: bool, force: bool) -> bool {
    &&& flow.setting == (Setting {
        operation,
        valid_name: layout::worktree_name_problem(name) is None,
        attach,
        force,
    })
    &&& flow.name@ == name
    &&& flow.facts@ == Map::<Step, Reply>::empty()
    &&& flow.config@ == (ConfigModel { agents: Seq::empty(), default_agent: None })
    &&& flow.head@.len() == 0
    &&& flow.branch_root@.len() == 0
    &&& flow.agent_name@.len() == 0
    &&& flow.agent@ == (AgentModel { command: Seq::empty(), args: Seq::empty() })
    &&& flow.pane is None
    &&& flow.failures@ == Seq::<(Step, ToolError)>::empty()
    &&& flow.well_formed()
}

impl<S: SessionBackend, P: AgentPicker> App<S, P> {
    pub fn with_picker(paths: DavidPaths, sessions: S, picker: P) -> (app: App<S, P>)
        ensures
            app == (App { paths, sessions, picker }),
    {
        App { paths, sessions, picker }
    }

    /// Creates or reuses a worktree and runs its agent.
    pub fn run(&self, name: &str, options: RunOptions) -> (flow: Flow)
        ensures
            begins(flow, Operation::Run, name@, options.attach, false),
            flow.location@ == flow::nowhere(),
            flow.options == options,
    {
        Flow::new(Operation::Run, name, "", options, false)
    }

    /// Attaches to the session of a worktree.
    pub fn attach(&self, name: &str) -> (flow: Flow)
        ensures
            begins(flow, Operation::Attach, name@, false, false),
            flow.location@ == flow::nowhere(),
    {
        Flow::new(Operation::Attach, name, "", no_options(), false)
    }

    /// Delivers a message to the agent of a worktree.
    pub fn prompt(&self, name: &str, message: &str) -> (flow: Flow)
        ensures
            begins(flow, Operation::Prompt, name@, false, false),
            flow.location@ == flow::nowhere(),
            flow.message@ == message@,
    {
        Flow::new(Operation::Prompt, name, message, no_options(), false)
    }

    /// Opens a worktree in an editor.
    pub fn edit(&self, name: &str) -> (flow: Flow)
        ensures
            begins(flow, Operation::Edit, name@, false, false),
            flow.location@ == flow::nowhere(),
    {
        Flow::new(Operation::Edit, name, "", no_options(), false)
    }

    /// Tells where a worktree is.
    pub fn path(&self, name: &str) -> (flow: Flow)
        ensures
            begins(flow, Operation::Path, name@, false, false),
            flow.location@ == flow::nowhere(),
    {
        Flow::new(Operation::Path, name, "", no_options(), false)
    }

    /// Removes a worktree with its session and its branch.
    pub fn remove(&self, name: &str, force: bool) -> (flow: Flow)
        ensures
            begins(flow, Operation::Remove, name@, false, force),
            flow.location@ == flow::nowhere(),
    {
        Flow::new(Operation::Remove, name, "", no_options(), force)
    }

    /// Asks for the session of a worktree whose place is known.
    pub fn session_status(&self, name: &str, location: Location) -> (flow: Flow)
        ensures
            begins(flow, Operation::Status, name@, false, false),
            flow.location == location,
    {
        let mut flow: Flow = Flow::new(Operation::Status, name, "", no_options(), false);
        flow.location = location;
        flow
    }

    /// What comes of a step for sessions or for the selection of an agent: whom
    /// it asks, with what, and that the answer is taken note of.
    pub open spec fn asked(&self, before: Flow, after: Flow) -> bool {
        let session = before.location.session@;
        match before.step() {
            Step::EnsureAvailable => exists|result: Result<(), ToolError>| #[trigger]
                call_ensures(S::ensure_available, (&self.sessions,), result) && after.done(
                    &before,
                    result,
                ),
            Step::FindSession | Step::CheckStarted | Step::CheckRecorded | Step::CheckFailed
            | Step::CheckConfigured => exists|name: &str, answer: Result<bool, ToolError>| #[trigger]
                call_ensures(S::has_session, (&self.sessions, name), answer) && name@ == session
                    && after.answered(&before, answer),
            Step::CheckMetadata => exists|
                name: &str,
                metadata: &SessionMetadata,
                result: Result<(), ToolError>,
            | #[trigger]
                call_ensures(
                    S::validate_session_metadata,
                    (&self.sessions, name, metadata),
                    result,
                ) && name@ == session && before.described_as(*metadata) && after.done(
                    &before,
                    result,
                ),
            Step::Adorn => exists|
                name: &str,
                metadata: &SessionMetadata,
                result: Result<(), ToolError>,
            | #[trigger]
                call_ensures(
                    S::configure_session_affordances,
                    (&self.sessions, name, metadata),
                    result,
                ) && name@ == session && before.described_as(*metadata) && after.done(
                    &before,
                    result,
                ),
            Step::Configure => exists|
                name: &str,
                metadata: &SessionMetadata,
                result: Result<(), ToolError>,
            | #[trigger]
                call_ensures(S::configure_session, (&self.sessions, name, metadata), result)
                    && name@ == session && before.described_as(*metadata) && after.done(
                    &before,
                    result,
                ),
            Step::FindPane => exists|name: &str, pane: Result<Option<String>, ToolError>| #[trigger]
                call_ensures(S::agent_pane, (&self.sessions, name), pane) && name@ == session && (
                match pane {
                    Ok(pane) => after.got_pane(&before, pane),
                    Err(error) => after.failed(&before, error),
                }),
            Step::CreateSession => exists|
                name: &str,
                cwd: &[u8],
                agent: &Agent,
                pane: Result<Option<String>, ToolError>,
            | #[trigger]
                call_ensures(
                    S::create_session_with_pane,
                    (&self.sessions, name, cwd, agent),
                    pane,
                ) && name@ == session && cwd@ == before.location.target@ && agent@ == before.agent@
                    && (match pane {
                    Ok(pane) => after.got_pane(&before, pane),
                    Err(error) => after.failed(&before, error),
                }),
            Step::CheckPane | Step::CheckAgent => match before.pane {
                Some(known) => exists|name: &str, pane: &str, alive: Result<bool, ToolError>| #[trigger]
                    call_ensures(S::pane_is_alive, (&self.sessions, name, pane), alive) && name@
                        == session && pane@ == known@ && after.answered(&before, alive),
                None => after.answered(&before, Ok(false)),
            },
            Step::Attach => exists|name: &str, result: Result<(), ToolError>| #[trigger]
                call_ensures(S::attach, (&self.sessions, name), result) && name@ == session
                    && after.done(&before, result),
            Step::AttachAgent => exists|
                name: &str,
                pane: &str,
                agent: &Agent,
                result: Result<(), ToolError>,
            | #[trigger]
                call_ensures(S::attach_with_agent, (&self.sessions, name, pane, agent), result)
                    && name@ == session && pane@ == before.pane_text() && agent@ == before.agent@
                    && after.done(&before, result),
            Step::KillFailed | Step::StopSession | Step::DropSession => exists|
                name: &str,
                result: Result<(), ToolError>,
            | #[trigger]
                call_ensures(S::kill_session, (&self.sessions, name), result) && name@ == session
                    && after.done(&before, result),
            Step::Deliver => exists|
                name: &str,
                message: &str,
                pane: &Option<String>,
                result: Result<(), ToolError>,
            | #[trigger]
                call_ensures(S::deliver_prompt_to, (&self.sessions, name, message, pane), result)
                    && name@ == session && message@ == before.message@ && *pane == before.pane
                    && after.done(&before, result),
            Step::PickAgent => exists|
                config: &Config,
                picked: Result<(String, Agent), ToolError>,
            | #[trigger]
                call_ensures(P::pick, (&self.picker, config), picked) && config@ == before.config@
                    && (match picked {
                    Ok((name, agent)) => after.got_agent(&before, name, agent),
                    Err(error) => after.failed(&before, error),
                }),
            _ => after == before,
        }
    }

    /// The list of worktrees for people.
    pub fn list(&self, entries: &Vec<ManagedWorktree>) -> (output: String)
        ensures
            output@ == listing::table(listing::entry_views(entries@)),
    {
        list_table(entries)
    }

    /// The list of worktrees for programs.
    pub fn list_porcelain(&self, entries: &Vec<ManagedWorktree>, zero: bool) -> (output: Vec<u8>)
        ensures
            output@ == listing::porcelain(
                listing::entry_views(entries@),
                listing::delimiter_of(zero),
            ),
    {
        write_porcelain_list(entries, zero)
    }

    /// Takes the next step of an operation if it is one for sessions or for the
    /// selection of an agent; false if it is not.
    pub fn perform(&self, flow: &mut Flow) -> (performed: bool)
        requires
            old(flow).well_formed(),
        ensures
            performed == on_sessions(old(flow).step()),
            self.asked(*old(flow), *final(flow)),
            final(flow).well_formed(),
    {
        let step: Step = flow.next();
        match step {
            Step::EnsureAvailable => {
                let result: Result<(), ToolError> = self.sessions.ensure_available();
                flow.record_done(result);
            },
            Step::FindSession | Step::CheckStarted | Step::CheckRecorded | Step::CheckFailed
            | Step::CheckConfigured => {
                let live: Result<bool, ToolError> = self.sessions.has_session(
                    flow.location.session.as_str(),
                );
                flow.record_answer(live);
            },
            Step::CheckMetadata => {
                let metadata: SessionMetadata = flow.metadata();
                let result: Result<(), ToolError> = self.sessions.validate_session_metadata(
                    flow.location.session.as_str(),
                    &metadata,
                );
                flow.record_done(result);
            },
            Step::Adorn => {
                let metadata: SessionMetadata = flow.metadata();
                let result: Result<(), ToolError> = self.sessions.configure_session_affordances(
                    flow.location.session.as_str(),
                    &metadata,
                );
                flow.record_done(result);
            },
            Step::Configure => {
                let metadata: SessionMetadata = flow.metadata();
                let result: Result<(), ToolError> = self.sessions.configure_session(
                    flow.location.session.as_str(),
                    &metadata,
                );
                flow.record_done(result);
            },
            Step::FindPane => {
                match self.sessions.agent_pane(flow.location.session.as_str()) {
                    Ok(pane) => flow.record_pane(pane),
                    Err(error) => flow.record_failure(error),
                }
            },
            Step::CreateSession => {
                match self.sessions.create_session_with_pane(
                    flow.location.session.as_str(),
                    flow.location.target.as_slice(),
                    &flow.agent,
                ) {
                    Ok(pane) => flow.record_pane(pane),
                    Err(error) => flow.record_failure(error),
                }
            },
            Step::CheckPane | Step::CheckAgent => {
                let alive: Result<bool, ToolError> = match &flow.pane {
                    Some(pane) => self.sessions.pane_is_alive(
                        flow.location.session.as_str(),
                        pane.as_str(),
                    ),
                    None => Ok(false),
                };
                flow.record_answer(alive);
            },
            Step::Attach => {
                let result: Result<(), ToolError> = self.sessions.attach(
                    flow.location.session.as_str(),
                );
                flow.record_done(result);
            },
            Step::AttachAgent => {
                proof {
                    reveal_strlit("");
                }
                let pane: &str = match &flow.pane {
                    Some(pane) => pane.as_str(),
                    None => "",
                };
                assert(pane@ =~= flow.pane_text());
                let result: Result<(), ToolError> = self.sessions.attach_with_agent(
                    flow.location.session.as_str(),
                    pane,
                    &flow.agent,
                );
                flow.record_done(result);
            },
            Step::KillFailed | Step::StopSession | Step::DropSession => {
                let result: Result<(), ToolError> = self.sessions.kill_session(
                    flow.location.session.as_str(),
                );
                flow.record_done(result);
            },
            Step::Deliver => {
                let result: Result<(), ToolError> = self.sessions.deliver_prompt_to(
                    flow.location.session.as_str(),
                    flow.message.as_str(),
                    &flow.pane,
                );
                flow.record_done(result);
            },
            Step::PickAgent => {
                match self.picker.pick(&flow.config) {
                    Ok((name, agent)) => flow.record_pick(name, agent),
                    Err(error) => flow.record_failure(error),
                }
            },
            _ => {
                return false;
            },
        }
        true
    }
}

/// Whom a step asks: a session is looked for, stopped and attached to by its own name; it
/// is started with its own agent, in its own worktree; and a prompt is delivered with its
/// own message, to the pane that is known.
pub proof fn steps_ask_for_their_own_session<S: SessionBackend, P: AgentPicker>(
    app: App<S, P>,
    before: Flow,
    after: Flow,
)
    requires
        app.asked(before, after),
    ensures
        ({
            let session = before.location.session@;
            let step = before.step();
            &&& step == Step::StopSession || step == Step::KillFailed || step == Step::DropSession
                ==> exists|name: &str, result: Result<(), ToolError>| #[trigger]
                call_ensures(S::kill_session, (&app.sessions, name), result) && name@ == session
                    && after.done(&before, result)
            &&& step == Step::Attach ==> exists|name: &str, result: Result<(), ToolError>| #[trigger]
                call_ensures(S::attach, (&app.sessions, name), result) && name@ == session
                    && after.done(&before, result)
            &&& step == Step::FindSession || step == Step::CheckStarted || step
                == Step::CheckRecorded || step == Step::CheckFailed || step == Step::CheckConfigured
                ==> exists|name: &str, answer: Result<bool, ToolError>| #[trigger]
                call_ensures(S::has_session, (&app.sessions, name), answer) && name@ == session
                    && after.answered(&before, answer)
            &&& step == Step::CreateSession ==> exists|
                name: &str,
                cwd: &[u8],
                agent: &Agent,
                pane: Result<Option<String>, ToolError>,
            | #[trigger]
                call_ensures(S::create_session_with_pane, (&app.sessions, name, cwd, agent), pane)
                    && name@ == session && cwd@ == before.location.target@ && agent@
                    == before.agent@ && (match pane {
                    Ok(pane) => after.got_pane(&before, pane),
                    Err(error) => after.failed(&before, error),
                })
            &&& step == Step::Deliver ==> exists|
                name: &str,
                message: &str,
                pane: &Option<String>,
                result: Result<(), ToolError>,
            | #[trigger]
                call_ensures(S::deliver_prompt_to, (&app.sessions, name, message, pane), result)
                    && name@ == session && message@ == before.message@ && *pane == before.pane
                    && after.done(&before, result)
        }),
{
}

/// A session is told, checked for and given what the operation knows of it, and its agent
/// is alive if its own pane is.
pub proof fn steps_speak_of_their_own_session<S: SessionBackend, P: AgentPicker>(
    app: App<S, P>,
    before: Flow,
    after: Flow,
)
    requires
        app.asked(before, after),
    ensures
        ({
            let session = before.location.session@;
            let step = before.step();
            &&& step == Step::CheckMetadata ==> exists|
                name: &str,
                metadata: &SessionMetadata,
                result: Result<(), ToolError>,
            | #[trigger]
                call_ensures(
                    S::validate_session_metadata,
                    (&app.sessions, name, metadata),
                    result,
                ) && name@ == session && before.described_as(*metadata) && after.done(
                    &before,
                    result,
                )
            &&& step == Step::Configure ==> exists|
                name: &str,
                metadata: &SessionMetadata,
                result: Result<(), ToolError>,
            | #[trigger]
                call_ensures(S::configure_session, (&app.sessions, name, metadata), result)
                    && name@ == session && before.described_as(*metadata) && after.done(
                    &before,
                    result,
                )
            &&& step == Step::Adorn ==> exists|
                name: &str,
                metadata: &SessionMetadata,
                result: Result<(), ToolError>,
            | #[trigger]
                call_ensures(
                    S::configure_session_affordances,
                    (&app.sessions, name, metadata),
                    result,
                ) && name@ == session && before.described_as(*metadata) && after.done(
                    &before,
                    result,
                )
            &&& step == Step::FindPane ==> exists|
                name: &str,
                pane: Result<Option<String>, ToolError>,
            | #[trigger]
                call_ensures(S::agent_pane, (&app.sessions, name), pane) && name@ == session && (
                match pane {
                    Ok(pane) => after.got_pane(&before, pane),
                    Err(error) => after.failed(&before, error),
                })
            &&& step == Step::CheckPane || step == Step::CheckAgent ==> match before.pane {
                Some(known) => exists|name: &str, pane: &str, alive: Result<bool, ToolError>| #[trigger]
                    call_ensures(S::pane_is_alive, (&app.sessions, name, pane), alive) && name@
                        == session && pane@ == known@ && after.answered(&before, alive),
                None => after.answered(&before, Ok(false)),
            }
            &&& step == Step::AttachAgent ==> exists|
                name: &str,
                pane: &str,
                agent: &Agent,
                result: Result<(), ToolError>,
            | #[trigger]
                call_ensures(S::attach_with_agent, (&app.sessions, name, pane, agent), result)
                    && name@ == session && pane@ == before.pane_text() && agent@ == before.agent@
                    && after.done(&before, result)
        }),
{
}

/// Files and Git are not for sessions; everything else is asked of them.
pub proof fn sessions_are_asked_for_their_steps(step: Step)
    ensures
        on_sessions(step) <==> step == Step::EnsureAvailable || step == Step::FindSession || step
            == Step::CheckStarted || step == Step::CheckRecorded || step == Step::CheckFailed
            || step == Step::CheckConfigured || step == Step::CheckMetadata || step
            == Step::FindPane || step == Step::CheckPane || step == Step::CheckAgent || step
            == Step::Adorn || step == Step::Configure || step == Step::Attach || step
            == Step::AttachAgent || step == Step::CreateSession || step == Step::KillFailed || step
            == Step::StopSession || step == Step::DropSession || step == Step::Deliver || step
            == Step::PickAgent,
{
}

/// An operation begins with what was asked for and with nothing known.
pub proof fn operations_begin_as_asked(
    flow: Flow,
    operation: Operation,
    name: Seq<char>,
    attach: bool,
    force: bool,
    step: Step,
)
    requires
        begins(flow, operation, name, attach, force),
    ensures
        flow.setting.operation == operation,
        flow.setting.attach == attach,
        flow.setting.force == force,
        flow.setting.valid_name <==> layout::worktree_name_problem(name) is None,
        flow.name@ == name,
        !flow.facts@.dom().contains(step),
        flow.failures@.len() == 0,
        flow.pane is None,
{
}

} // verus!
