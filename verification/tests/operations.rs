use std::cell::RefCell;
use std::collections::{BTreeMap, BTreeSet};
use std::rc::Rc;

use david::app::{AgentPicker, App, SessionBackend};
use david::cli::{Cli, Command};
use david::config::{Agent, Config};
use david::dispatch::{plan_run, Backend};
use david::error::{message, IoFailure, ToolError};
use david::flow::{Flow, Location};
use david::git::{find_worktree, Candidate, GitCommand};
use david::identity::{repository_id, repository_name, session_name};
use david::layout::{DavidPaths, MissingWalk};
use david::listing::{
    managed_name, managed_worktrees, path_line, FoundWorktree, ManagedWorktree, NamedWorktree,
};
use david::selection::{direct_agent_is_resolvable, ConfigSketch, RunOptions};
use david::setup::unreadable_config;
use david::state::{read_session_state, SessionMetadata};
use david::steps::Step;
use david::worktree::{parse_worktree_list_bytes, Worktree};

type Outcome<T> = Result<T, ToolError>;

#[derive(Clone, Default)]
struct FakeSessions {
    state: Rc<RefCell<FakeSessionState>>,
}

#[derive(Default)]
struct FakeSessionState {
    live: BTreeSet<String>,
    created: Vec<String>,
    started: Vec<(Vec<u8>, String, Vec<String>)>,
    configured: Vec<(String, SessionMetadata)>,
    attached: Vec<String>,
    killed: Vec<String>,
    configure_error: Option<String>,
    kill_error: Option<String>,
    metadata_error: Option<String>,
    deliveries: Vec<(String, String)>,
    prompt_error: Option<String>,
}

impl SessionBackend for FakeSessions {
    fn ensure_available(&self) -> Outcome<()> {
        Ok(())
    }

    fn has_session(&self, name: &str) -> Outcome<bool> {
        Ok(self.state.borrow().live.contains(name))
    }

    fn create_session(&self, name: &str, cwd: &[u8], agent: &Agent) -> Outcome<()> {
        let mut state = self.state.borrow_mut();
        state.live.insert(name.to_owned());
        state.created.push(name.to_owned());
        state
            .started
            .push((cwd.to_vec(), agent.command.clone(), agent.args.clone()));
        Ok(())
    }

    fn configure_session(&self, name: &str, metadata: &SessionMetadata) -> Outcome<()> {
        let mut state = self.state.borrow_mut();
        if let Some(text) = &state.configure_error {
            return Err(message(text));
        }
        let metadata = SessionMetadata {
            project_name: metadata.project_name.clone(),
            worktree_name: metadata.worktree_name.clone(),
            agent_name: metadata.agent_name.clone(),
        };
        state.configured.push((name.to_owned(), metadata));
        Ok(())
    }

    fn validate_session_metadata(&self, _name: &str, _metadata: &SessionMetadata) -> Outcome<()> {
        match &self.state.borrow().metadata_error {
            Some(text) => Err(message(text)),
            None => Ok(()),
        }
    }

    fn agent_pane(&self, _name: &str) -> Outcome<Option<String>> {
        Ok(Some("%0".to_owned()))
    }

    fn attach(&self, name: &str) -> Outcome<()> {
        self.state.borrow_mut().attached.push(name.to_owned());
        Ok(())
    }

    fn deliver_prompt(&self, name: &str, prompt: &str) -> Outcome<()> {
        let mut state = self.state.borrow_mut();
        if let Some(error) = state.prompt_error.as_ref() {
            return Err(message(error));
        }
        state.deliveries.push((name.to_owned(), prompt.to_owned()));
        Ok(())
    }

    fn kill_session(&self, name: &str) -> Outcome<()> {
        let mut state = self.state.borrow_mut();
        if let Some(text) = &state.kill_error {
            return Err(message(text));
        }
        state.live.remove(name);
        state.killed.push(name.to_owned());
        Ok(())
    }
}

#[derive(Clone, Default)]
struct PaneSessions {
    state: Rc<RefCell<PaneSessionState>>,
}

#[derive(Default)]
struct PaneSessionState {
    live: BTreeSet<String>,
    pane: Option<String>,
    pane_error: Option<String>,
    pane_dead: bool,
    deliveries: Vec<(String, String, Option<String>)>,
    killed: Vec<String>,
}

impl SessionBackend for PaneSessions {
    fn ensure_available(&self) -> Outcome<()> {
        Ok(())
    }

    fn has_session(&self, name: &str) -> Outcome<bool> {
        Ok(self.state.borrow().live.contains(name))
    }

    fn create_session(&self, name: &str, _cwd: &[u8], _agent: &Agent) -> Outcome<()> {
        self.state.borrow_mut().live.insert(name.to_owned());
        Ok(())
    }

    fn agent_pane(&self, _name: &str) -> Outcome<Option<String>> {
        let state = self.state.borrow();
        if let Some(error) = state.pane_error.as_ref() {
            return Err(message(error));
        }
        Ok(state.pane.clone())
    }

    fn pane_is_alive(&self, _name: &str, _pane: &str) -> Outcome<bool> {
        Ok(!self.state.borrow().pane_dead)
    }

    fn attach(&self, _name: &str) -> Outcome<()> {
        Ok(())
    }

    fn deliver_prompt_to(&self, name: &str, prompt: &str, pane: &Option<String>) -> Outcome<()> {
        self.state.borrow_mut().deliveries.push((
            name.to_owned(),
            prompt.to_owned(),
            pane.clone(),
        ));
        Ok(())
    }

    fn kill_session(&self, name: &str) -> Outcome<()> {
        let mut state = self.state.borrow_mut();
        state.live.remove(name);
        state.killed.push(name.to_owned());
        Ok(())
    }
}

#[derive(Clone, Default)]
struct AtomicPaneSessions {
    inner: PaneSessions,
}

impl SessionBackend for AtomicPaneSessions {
    fn ensure_available(&self) -> Outcome<()> {
        self.inner.ensure_available()
    }

    fn has_session(&self, name: &str) -> Outcome<bool> {
        self.inner.has_session(name)
    }

    fn create_session(&self, name: &str, cwd: &[u8], agent: &Agent) -> Outcome<()> {
        self.inner.create_session(name, cwd, agent)
    }

    fn create_session_with_pane(
        &self,
        name: &str,
        cwd: &[u8],
        agent: &Agent,
    ) -> Outcome<Option<String>> {
        self.inner.create_session(name, cwd, agent)?;
        Ok(Some("%99".to_owned()))
    }

    fn agent_pane(&self, _name: &str) -> Outcome<Option<String>> {
        Err(message("agent pane was queried after session creation"))
    }

    fn pane_is_alive(&self, name: &str, pane: &str) -> Outcome<bool> {
        self.inner.pane_is_alive(name, pane)
    }

    fn attach(&self, name: &str) -> Outcome<()> {
        self.inner.attach(name)
    }

    fn deliver_prompt_to(&self, name: &str, prompt: &str, pane: &Option<String>) -> Outcome<()> {
        self.inner.deliver_prompt_to(name, prompt, pane)
    }

    fn kill_session(&self, name: &str) -> Outcome<()> {
        self.inner.kill_session(name)
    }
}

#[derive(Clone, Copy, Default)]
struct FirstAgentPicker;

impl AgentPicker for FirstAgentPicker {
    fn pick(&self, config: &Config) -> Outcome<(String, Agent)> {
        config
            .agents
            .first()
            .map(|entry| (entry.name.clone(), entry.agent.clone()))
            .ok_or_else(|| message("no agents configured"))
    }
}

fn agent(command: &str, args: &[&str]) -> Agent {
    Agent {
        command: command.to_owned(),
        args: args.iter().map(|arg| arg.to_string()).collect(),
    }
}

const REPO: &[u8] = b"/src/project";
const COMMON: &[u8] = b"/src/project/.git";

/// A machine with a repository and a home directory, in memory.
struct World {
    home: Vec<u8>,
    directories: BTreeSet<Vec<u8>>,
    links: BTreeMap<Vec<u8>, Vec<u8>>,
    states: BTreeMap<Vec<u8>, String>,
    worktrees: Vec<Worktree>,
    branches: BTreeSet<String>,
    tip: String,
    dirty: BTreeSet<Vec<u8>>,
    rebasing: Option<String>,
    config: Option<Config>,
    variable: Option<String>,
    commands: BTreeSet<String>,
    failing: BTreeMap<String, String>,
    steps: Vec<Step>,
}

fn parents(path: &[u8]) -> Vec<Vec<u8>> {
    let mut all = vec![b"/".to_vec()];
    for (index, byte) in path.iter().enumerate() {
        if *byte == b'/' && index > 0 {
            all.push(path[..index].to_vec());
        }
    }
    all
}

impl World {
    fn new() -> World {
        World::at(b"/home/user")
    }

    fn at(home: &[u8]) -> World {
        let mut config = Config::default();
        config.insert("test".to_owned(), agent("echo", &["ready"]));
        let mut world = World {
            home: home.to_vec(),
            directories: BTreeSet::new(),
            links: BTreeMap::new(),
            states: BTreeMap::new(),
            worktrees: vec![Worktree {
                path: REPO.to_vec(),
                head: "abc".to_owned(),
                branch: Some("main".to_owned()),
            }],
            branches: BTreeSet::new(),
            tip: "abc".to_owned(),
            dirty: BTreeSet::new(),
            rebasing: None,
            config: Some(config),
            variable: None,
            commands: BTreeSet::new(),
            failing: BTreeMap::new(),
            steps: Vec::new(),
        };
        world.commands.insert("echo".to_owned());
        world.make(REPO);
        world.make(home);
        world
    }

    fn paths(&self) -> DavidPaths {
        DavidPaths::from_home(&self.home)
    }

    fn id(&self) -> String {
        repository_id(COMMON)
    }

    fn target(&self, name: &str) -> Vec<u8> {
        self.paths().worktree_path(&self.id(), name)
    }

    fn state_path(&self, name: &str) -> Vec<u8> {
        self.paths().session_state_path(&self.id(), name)
    }

    fn make(&mut self, path: &[u8]) {
        self.directories.extend(parents(path));
        self.directories.insert(path.to_vec());
    }

    fn follow(&self, path: &[u8]) -> Vec<u8> {
        for (link, goal) in &self.links {
            if path == link.as_slice() {
                return goal.clone();
            }
            if path.starts_with(link) && path[link.len()] == b'/' {
                return [goal.as_slice(), &path[link.len()..]].concat();
            }
        }
        path.to_vec()
    }

    fn canonical(&self, path: &[u8]) -> Option<Vec<u8>> {
        let path = self.follow(path);
        self.directories.contains(&path).then_some(path)
    }

    fn canonical_or_same(&self, path: &[u8]) -> Vec<u8> {
        self.canonical(path).unwrap_or_else(|| path.to_vec())
    }

    fn resolve(&self, path: &[u8]) -> Option<Vec<u8>> {
        let mut walk = MissingWalk::new(path);
        loop {
            if let Some(found) = self.canonical(&walk.current) {
                return Some(walk.resolved(&found));
            }
            if !walk.not_found() {
                return None;
            }
        }
    }

    fn candidates(&self) -> Vec<Candidate> {
        self.worktrees
            .iter()
            .map(|worktree| Candidate {
                worktree: Worktree {
                    path: worktree.path.clone(),
                    head: worktree.head.clone(),
                    branch: worktree.branch.clone(),
                },
                resolved: self.canonical_or_same(&worktree.path),
                is_directory: self.canonical(&worktree.path).is_some(),
            })
            .collect()
    }

    fn add(&mut self, branch: &str, path: &[u8]) {
        self.make(path);
        self.branches.insert(branch.to_owned());
        self.worktrees.push(Worktree {
            path: path.to_vec(),
            head: "abc".to_owned(),
            branch: Some(branch.to_owned()),
        });
    }

    fn contained(&self, paths: &DavidPaths, name: &str) -> Outcome<()> {
        let worktrees = self.canonical_or_same(&paths.worktrees);
        let base = self.resolve(&paths.repository_worktrees(&self.id()));
        let target = self.resolve(&paths.worktree_path(&self.id(), name));
        DavidPaths::validate_worktree_path(name, &worktrees, &base, &target)
    }

    fn drive<S: SessionBackend, P: AgentPicker>(
        &mut self,
        app: &App<S, P>,
        root: &[u8],
        mut flow: Flow,
    ) -> Outcome<Flow> {
        loop {
            let step = flow.next();
            self.steps.push(step);
            if let Some(text) = self.failing.get(&format!("{step:?}")) {
                flow.record_failure(message(text));
                continue;
            }
            if app.perform(&mut flow) {
                continue;
            }
            match step {
                Step::Locate => {
                    let project = repository_name(COMMON, &None, root).unwrap();
                    let location =
                        Location::new(&app.paths, root.to_vec(), self.id(), project, &flow.name);
                    flow.record_location(location);
                }
                Step::Contain => {
                    let result = self.contained(&app.paths, &flow.name);
                    flow.record_done(result);
                }
                Step::CheckDirectory | Step::CheckTarget => {
                    let there = self.canonical(&flow.location.target).is_some();
                    flow.record_answer(Ok(there));
                }
                Step::Find => {
                    let resolved = self.canonical(&flow.location.target);
                    let found =
                        find_worktree(&self.candidates(), &resolved, &flow.location.target);
                    flow.record_worktree(found);
                }
                Step::CheckRebase => {
                    let answer = self.rebasing.as_deref() == Some(flow.name.as_str());
                    flow.record_answer(Ok(answer));
                }
                Step::CheckSource => {
                    let clean = !self.dirty.contains(&flow.location.root);
                    flow.record_answer(Ok(clean));
                }
                Step::CheckWorktree | Step::RecheckWorktree => {
                    let clean = !self.dirty.contains(&flow.location.target);
                    flow.record_answer(Ok(clean));
                }
                Step::FindState | Step::FindStale => {
                    let there = self.states.contains_key(&flow.location.state_path);
                    flow.record_answer(Ok(there));
                }
                Step::ReadState => {
                    let path = flow.location.state_path.clone();
                    match read_session_state(&self.states[&path], &path) {
                        Ok(record) => {
                            let recorded = self.canonical_or_same(&record.worktree_path);
                            let requested = self.canonical_or_same(&flow.location.target);
                            flow.record_state(record, &recorded, &requested);
                        }
                        Err(error) => flow.record_failure(error),
                    }
                }
                Step::RemoveStale | Step::RemoveState | Step::DropState | Step::RemoveFailed => {
                    self.states.remove(&flow.location.state_path);
                    flow.record_done(Ok(()));
                }
                Step::LoadConfig => match &self.config {
                    Some(config) => match config.validate() {
                        Ok(()) => {
                            let copy = config.copy();
                            flow.record_config(copy, &self.variable);
                        }
                        Err(error) => flow.record_failure(error),
                    },
                    None => {
                        let failure = IoFailure {
                            not_found: true,
                            detail: "no such file".to_owned(),
                        };
                        flow.record_failure(unreadable_config(&app.paths.config_path(), failure));
                    }
                },
                Step::CheckCommand => {
                    let there = self.commands.contains(&flow.agent.command);
                    flow.record_answer(Ok(there));
                }
                Step::AddWorktree => {
                    let target = flow.location.target.clone();
                    self.add(&flow.name, &target);
                    flow.record_done(Ok(()));
                }
                Step::WriteState | Step::WritePane => {
                    let record = flow.session_record().encode();
                    self.states.insert(flow.location.state_path.clone(), record);
                    flow.record_done(Ok(()));
                }
                Step::FindRoot => {
                    let root = self.canonical_or_same(&flow.location.root);
                    let target = self.canonical_or_same(&flow.location.target);
                    flow.record_root(&root, &target, &self.candidates());
                }
                Step::RemoveWorktree => {
                    let target = flow.location.target.clone();
                    self.directories.remove(&target);
                    self.dirty.remove(&target);
                    self.worktrees.retain(|worktree| worktree.path != target);
                    flow.record_done(Ok(()));
                }
                Step::DeleteBranch => {
                    let Some((directory, GitCommand::DeleteBranch { name, head })) =
                        flow.git_command()
                    else {
                        panic!("another command");
                    };
                    assert!(self.directories.contains(&directory));
                    if head == self.tip {
                        self.branches.remove(&name);
                        flow.record_done(Ok(()));
                    } else {
                        flow.record_failure(message("the branch has moved"));
                    }
                }
                Step::Finish(_) => return flow.finish().map(|()| flow),
                _ => flow.record_done(Ok(())),
            }
        }
    }

    fn run<S: SessionBackend, P: AgentPicker>(&mut self, app: &App<S, P>, name: &str) -> Outcome<()> {
        self.run_with(app, REPO, name, options())
    }

    fn run_with<S: SessionBackend, P: AgentPicker>(
        &mut self,
        app: &App<S, P>,
        root: &[u8],
        name: &str,
        options: RunOptions,
    ) -> Outcome<()> {
        self.drive(app, root, app.run(name, options)).map(|_| ())
    }

    fn prompt<S: SessionBackend, P: AgentPicker>(
        &mut self,
        app: &App<S, P>,
        name: &str,
        text: &str,
    ) -> Outcome<()> {
        self.drive(app, REPO, app.prompt(name, text)).map(|_| ())
    }

    fn remove<S: SessionBackend, P: AgentPicker>(
        &mut self,
        app: &App<S, P>,
        root: &[u8],
        name: &str,
        force: bool,
    ) -> Outcome<()> {
        self.drive(app, root, app.remove(name, force)).map(|_| ())
    }

    fn path<S: SessionBackend, P: AgentPicker>(
        &mut self,
        app: &App<S, P>,
        name: &str,
        zero: bool,
    ) -> Outcome<Vec<u8>> {
        let flow = self.drive(app, REPO, app.path(name))?;
        let resolved = self.canonical(&flow.location.target).unwrap();
        Ok(path_line(&resolved, zero))
    }

    fn entries<S: SessionBackend, P: AgentPicker>(
        &mut self,
        app: &App<S, P>,
    ) -> Outcome<Vec<ManagedWorktree>> {
        app.sessions.ensure_available()?;
        let base = self.canonical_or_same(&app.paths.repository_worktrees(&self.id()));
        let found = self
            .candidates()
            .into_iter()
            .map(|candidate| FoundWorktree {
                contained: managed_name(&base, &candidate.worktree.path)
                    .is_some_and(|name| self.contained(&app.paths, &name).is_ok()),
                worktree: candidate.worktree,
            })
            .collect();
        let mut entries = Vec::new();
        for NamedWorktree { name, worktree } in managed_worktrees(&base, &found) {
            let project = repository_name(COMMON, &None, REPO)?;
            let location = Location::new(&app.paths, REPO.to_vec(), self.id(), project, &name);
            let flow = self.drive(app, REPO, app.session_status(&name, location))?;
            let (agent, session) = flow.status();
            entries.push(ManagedWorktree::new(name, &worktree, agent, session));
        }
        Ok(entries)
    }

    fn list<S: SessionBackend, P: AgentPicker>(&mut self, app: &App<S, P>) -> String {
        let entries = self.entries(app).unwrap();
        app.list(&entries)
    }

    fn list_porcelain<S: SessionBackend, P: AgentPicker>(
        &mut self,
        app: &App<S, P>,
        zero: bool,
    ) -> Vec<u8> {
        let entries = self.entries(app).unwrap();
        app.list_porcelain(&entries, zero)
    }

    fn position(&self, step: Step) -> Option<usize> {
        self.steps.iter().position(|other| *other == step)
    }
}

fn options() -> RunOptions {
    RunOptions {
        agent: None,
        agent_args: Vec::new(),
        interactive: true,
        attach: true,
    }
}

fn scripted(agent: Option<&str>, args: &[&str]) -> RunOptions {
    RunOptions {
        agent: agent.map(str::to_owned),
        agent_args: args.iter().map(|arg| arg.to_string()).collect(),
        interactive: false,
        attach: false,
    }
}

fn test_app<S: SessionBackend>(world: &World, sessions: S) -> App<S, FirstAgentPicker> {
    App::with_picker(world.paths(), sessions, FirstAgentPicker)
}

fn assert_metadata(found: &SessionMetadata, project: &str, worktree: &str, agent: &str) {
    assert_eq!(found.project_name, project);
    assert_eq!(found.worktree_name, worktree);
    assert_eq!(found.agent_name, agent);
}

#[test]
fn run_creates_then_reuses_worktree_and_session() {
    let mut world = World::new();
    let sessions = FakeSessions::default();
    let app = test_app(&world, sessions.clone());

    world.run(&app, "feature").unwrap();

    let target = world.target("feature");
    assert!(world.directories.contains(&target));
    assert_eq!(sessions.state.borrow().created.len(), 1);
    assert_eq!(sessions.state.borrow().configured.len(), 1);
    assert_metadata(
        &sessions.state.borrow().configured[0].1,
        "project",
        "feature",
        "test",
    );
    assert_eq!(sessions.state.borrow().attached.len(), 1);
    assert_eq!(
        sessions.state.borrow().started,
        vec![(target, "echo".to_owned(), vec!["ready".to_owned()])]
    );

    world.run(&app, "feature").unwrap();
    assert_eq!(sessions.state.borrow().created.len(), 1);
    assert_eq!(sessions.state.borrow().configured.len(), 2);
    assert_metadata(
        &sessions.state.borrow().configured[1].1,
        "project",
        "feature",
        "test",
    );
    assert_eq!(sessions.state.borrow().attached.len(), 2);
}

#[test]
fn run_uses_the_atomically_returned_agent_pane_without_querying_panes() {
    let mut world = World::new();
    let sessions = AtomicPaneSessions::default();
    let app = test_app(&world, sessions.clone());

    world.run(&app, "feature").unwrap();

    assert!(world.states[&world.state_path("feature")].contains("pane=%99\n"));

    world.prompt(&app, "feature", "message").unwrap();
    assert_eq!(
        sessions.inner.state.borrow().deliveries,
        vec![(
            session_name(&world.id(), "feature"),
            "message".to_owned(),
            Some("%99".to_owned())
        )]
    );
}

#[test]
fn run_persists_agent_pane_and_prompt_uses_the_persisted_target() {
    let mut world = World::new();
    let sessions = PaneSessions::default();
    sessions.state.borrow_mut().pane = Some("%42".to_owned());
    let app = test_app(&world, sessions.clone());

    world.run(&app, "feature").unwrap();

    assert!(world.states[&world.state_path("feature")].contains("pane=%42\n"));

    world.prompt(&app, "feature", "message").unwrap();
    assert_eq!(
        sessions.state.borrow().deliveries,
        vec![(
            session_name(&world.id(), "feature"),
            "message".to_owned(),
            Some("%42".to_owned())
        )]
    );
}

#[test]
fn run_rejects_a_dead_agent_pane() {
    let mut world = World::new();
    let sessions = PaneSessions::default();
    {
        let mut state = sessions.state.borrow_mut();
        state.pane = Some("%42".to_owned());
        state.pane_dead = true;
    }
    let app = test_app(&world, sessions.clone());

    let error = world.run(&app, "feature").unwrap_err();

    assert!(error.text().contains("agent pane"));
    assert!(!world.states.contains_key(&world.state_path("feature")));
    assert!(sessions.state.borrow().live.is_empty());
    assert!(sessions.state.borrow().killed.len() == 1);
}

#[test]
fn prompt_rejects_a_dead_persisted_pane() {
    let mut world = World::new();
    let sessions = PaneSessions::default();
    sessions.state.borrow_mut().pane = Some("%42".to_owned());
    let app = test_app(&world, sessions.clone());

    world.run(&app, "feature").unwrap();
    sessions.state.borrow_mut().pane_dead = true;

    let error = world.prompt(&app, "feature", "message").unwrap_err();

    assert!(error.text().contains("dead"));
    assert!(sessions.state.borrow().deliveries.is_empty());
}

#[test]
fn run_cleans_up_state_and_session_when_agent_pane_query_fails() {
    let mut world = World::new();
    let sessions = PaneSessions::default();
    sessions.state.borrow_mut().pane_error = Some("pane unavailable".to_owned());
    let app = test_app(&world, sessions.clone());

    let error = world.run(&app, "feature").unwrap_err();

    assert!(error.text().contains("pane unavailable"));
    assert!(!world.states.contains_key(&world.state_path("feature")));
    assert!(sessions.state.borrow().live.is_empty());
    assert_eq!(
        sessions.state.borrow().killed,
        vec![session_name(&world.id(), "feature")]
    );
}

#[test]
fn run_rejects_a_symlinked_worktree_parent_escape_before_creating_or_starting_session() {
    let mut world = World::new();
    let paths = world.paths();
    world.make(&paths.worktrees);
    world.make(b"/outside");
    world
        .links
        .insert(paths.repository_worktrees(&world.id()), b"/outside".to_vec());
    let sessions = FakeSessions::default();
    let app = test_app(&world, sessions.clone());

    let error = world.run(&app, "feature").unwrap_err();

    assert!(error.text().contains("escapes the managed directory"));
    assert!(sessions.state.borrow().created.is_empty());
    assert!(!world.directories.contains(b"/outside/feature".as_slice()));
}

#[test]
fn remove_rejects_a_symlinked_worktree_parent_escape_before_stopping_session() {
    let mut world = World::new();
    let sessions = FakeSessions::default();
    let app = test_app(&world, sessions.clone());
    let worktree = "feature";

    world.run(&app, worktree).unwrap();
    let base = world.paths().repository_worktrees(&world.id());
    let target = world.target(worktree);
    world.directories.remove(&target);
    world.directories.remove(&base);
    world.make(b"/outside/feature");
    world.links.insert(base, b"/outside".to_vec());

    let error = world.remove(&app, REPO, worktree, true).unwrap_err();

    assert!(error.text().contains("escapes the managed directory"));
    assert!(sessions.state.borrow().killed.is_empty());
    assert!(world.directories.contains(b"/outside/feature".as_slice()));
}

#[test]
fn run_supports_slashes_in_worktree_and_branch_names() {
    let mut world = World::new();
    let sessions = FakeSessions::default();
    let app = test_app(&world, sessions.clone());
    let name = "feature/login";

    world.run(&app, name).unwrap();

    let target = world.target(name);
    assert!(world.directories.contains(&target));
    assert!(world.branches.contains("feature/login"));

    world.run(&app, name).unwrap();
    assert_eq!(sessions.state.borrow().created.len(), 1);
    assert_eq!(sessions.state.borrow().attached.len(), 2);

    assert!(world
        .list(&app)
        .contains("feature/login\tfeature/login\ttest\t"));

    world.remove(&app, REPO, name, true).unwrap();
    assert!(!world.directories.contains(&target));
    assert!(!world.branches.contains("feature/login"));
}

#[test]
fn linked_worktrees_share_repository_identity() {
    let mut world = World::new();
    let sessions = FakeSessions::default();
    let app = test_app(&world, sessions.clone());

    world.run(&app, "first").unwrap();
    let first = world.target("first");
    world.run_with(&app, &first, "second", options()).unwrap();

    assert!(world.directories.contains(&world.target("second")));
    let state = sessions.state.borrow();
    assert_eq!(state.configured.len(), 2);
    assert_eq!(state.configured[0].1.project_name, "project");
    assert_eq!(
        state.configured[1].1.project_name,
        state.configured[0].1.project_name
    );
    assert_eq!(state.configured[1].1.worktree_name, "second");
}

#[test]
fn remove_rejects_dirty_worktree_until_forced() {
    let mut world = World::new();
    let sessions = FakeSessions::default();
    let app = test_app(&world, sessions.clone());

    world.run(&app, "feature").unwrap();
    let target = world.target("feature");
    world.dirty.insert(target.clone());

    assert!(world.remove(&app, REPO, "feature", false).is_err());
    assert!(world.directories.contains(&target));
    assert_eq!(sessions.state.borrow().killed.len(), 0);

    world.remove(&app, REPO, "feature", true).unwrap();
    assert!(!world.directories.contains(&target));
    assert_eq!(sessions.state.borrow().killed.len(), 1);
    assert!(!world.branches.contains("feature"));

    world.run(&app, "feature").unwrap();
    assert!(world.directories.contains(&target));
    assert_eq!(sessions.state.borrow().created.len(), 2);

    world.remove(&app, &target, "feature", true).unwrap();
    assert!(!world.directories.contains(&target));
}

#[test]
fn new_session_configuration_failure_rolls_back_session_and_state() {
    let mut world = World::new();
    let sessions = FakeSessions::default();
    sessions.state.borrow_mut().configure_error = Some("configuration failed".to_owned());
    let app = test_app(&world, sessions.clone());

    let error = world.run(&app, "feature").unwrap_err();

    assert_eq!(error.text(), "configuration failed");
    let session = session_name(&world.id(), "feature");
    assert!(!sessions.state.borrow().live.contains(&session));
    assert_eq!(sessions.state.borrow().killed, vec![session]);
    assert!(!world.states.contains_key(&world.state_path("feature")));
}

#[test]
fn existing_session_configuration_failure_keeps_agent_alive() {
    let mut world = World::new();
    let sessions = FakeSessions::default();
    let app = test_app(&world, sessions.clone());

    world.run(&app, "feature").unwrap();
    sessions.state.borrow_mut().configure_error = Some("configuration failed".to_owned());

    let error = world.run(&app, "feature").unwrap_err();

    assert_eq!(error.text(), "configuration failed");
    assert_eq!(sessions.state.borrow().killed.len(), 0);
    assert_eq!(sessions.state.borrow().attached.len(), 1);
    assert_eq!(sessions.state.borrow().live.len(), 1);
}

#[test]
fn new_session_configuration_failure_keeps_state_when_cleanup_fails() {
    let mut world = World::new();
    let sessions = FakeSessions::default();
    sessions.state.borrow_mut().configure_error = Some("configuration failed".to_owned());
    sessions.state.borrow_mut().kill_error = Some("kill failed".to_owned());
    let app = test_app(&world, sessions.clone());

    let error = world.run(&app, "feature").unwrap_err();

    assert!(error.text().contains("failed to clean up agent session"));
    let session = session_name(&world.id(), "feature");
    assert!(sessions.state.borrow().live.contains(&session));
    assert!(world.states.contains_key(&world.state_path("feature")));
}

#[test]
fn list_reports_active_agent() {
    let mut world = World::new();
    let app = test_app(&world, FakeSessions::default());
    world.run(&app, "feature").unwrap();

    assert!(world.list(&app).contains("feature\tfeature\ttest\t"));
}

#[test]
fn human_list_preserves_header_and_row_bytes() {
    let mut world = World::new();
    let app = test_app(&world, FakeSessions::default());
    world.run(&app, "feature").unwrap();

    let target = String::from_utf8(world.target("feature")).unwrap();
    assert_eq!(
        world.list(&app),
        format!("NAME\tBRANCH\tAGENT\tPATH\nfeature\tfeature\ttest\t{target}\n")
    );
}

#[test]
fn porcelain_list_reports_unknown_inactive_and_active_sessions() {
    let mut world = World::new();
    let sessions = FakeSessions::default();
    let app = test_app(&world, sessions.clone());

    world.run(&app, "active").unwrap();
    world.run(&app, "inactive").unwrap();
    sessions
        .state
        .borrow_mut()
        .live
        .remove(&session_name(&world.id(), "inactive"));

    let unknown = world.target("unknown");
    world.add("unknown", &unknown);

    let output = String::from_utf8(world.list_porcelain(&app, false)).unwrap();
    assert!(output.contains("name active\nbranch active\nagent test\nsession active\n"));
    assert!(output.contains("name inactive\nbranch inactive\nagent -\nsession inactive\n"));
    assert!(output.contains("name unknown\nbranch unknown\nagent -\nsession unknown\n"));
}

#[test]
fn path_prints_only_the_absolute_managed_worktree_path() {
    let mut world = World::new();
    let app = test_app(&world, FakeSessions::default());
    world.run(&app, "feature").unwrap();

    let mut expected = world.target("feature");
    expected.push(b'\n');
    assert_eq!(world.path(&app, "feature", false).unwrap(), expected);
}

#[test]
fn path_rejects_missing_and_mismatched_worktrees() {
    let mut world = World::new();
    let app = test_app(&world, FakeSessions::default());
    assert!(world.path(&app, "missing", false).is_err());

    let target = world.target("feature");
    world.add("other", &target);

    let mismatched = world.path(&app, "feature", false);
    assert!(mismatched.unwrap_err().text().contains("expected branch"));
}

#[test]
fn path_outputs_lf_or_nul_and_rejects_missing_worktrees() {
    let mut world = World::new();
    let target = world.target("feature");
    world.add("feature", &target);
    let app = test_app(&world, FakeSessions::default());

    let mut expected_lf = target.clone();
    expected_lf.push(b'\n');
    assert_eq!(world.path(&app, "feature", false).unwrap(), expected_lf);

    let mut expected_nul = target;
    expected_nul.push(b'\0');
    assert_eq!(world.path(&app, "feature", true).unwrap(), expected_nul);

    let missing = world.path(&app, "missing", false).unwrap_err();
    assert_eq!(missing.exit_code(), 1);
    assert_eq!(
        format!("error: {}\n", missing.text()).as_bytes(),
        b"error: managed worktree does not exist: missing\n"
    );
}

#[test]
fn porcelain_nul_output_preserves_a_newline_in_a_worktree_path() {
    let mut world = World::new();
    let target = world.target("feature\nwith-newline");
    world.add("feature", &target);
    let app = test_app(&world, FakeSessions::default());

    let mut expected_lf =
        b"name feature\nwith-newline\nbranch feature\nagent -\nsession unknown\npath ".to_vec();
    expected_lf.extend_from_slice(&target);
    expected_lf.push(b'\n');
    assert_eq!(world.list_porcelain(&app, false), expected_lf);

    let mut expected_nul =
        b"name feature\nwith-newline\0branch feature\0agent -\0session unknown\0path ".to_vec();
    expected_nul.extend_from_slice(&target);
    expected_nul.push(b'\0');
    assert_eq!(world.list_porcelain(&app, true), expected_nul);
}

#[test]
fn actual_git_worktree_invalid_path_bytes_are_preserved_by_list_and_path() {
    let mut world = World::at(b"/tmp/home-\xff");
    let target = world.target("feature");
    let mut output = b"worktree ".to_vec();
    output.extend_from_slice(&target);
    output.extend_from_slice(b"\0HEAD abc\0branch refs/heads/feature\0\0");
    world.make(&target);
    world.worktrees.extend(parse_worktree_list_bytes(&output));
    let app = test_app(&world, FakeSessions::default());

    let mut expected_path = target.clone();
    expected_path.push(b'\0');
    assert_eq!(world.path(&app, "feature", true).unwrap(), expected_path);

    let mut expected_list =
        b"name feature\0branch feature\0agent -\0session unknown\0path ".to_vec();
    expected_list.extend_from_slice(&target);
    expected_list.push(b'\0');
    assert_eq!(world.list_porcelain(&app, true), expected_list);
}

#[test]
fn list_reports_a_dead_persisted_pane_as_inactive() {
    let mut world = World::new();
    let sessions = PaneSessions::default();
    sessions.state.borrow_mut().pane = Some("%42".to_owned());
    let app = test_app(&world, sessions.clone());

    world.run(&app, "feature").unwrap();
    sessions.state.borrow_mut().pane_dead = true;

    let output = world.list(&app);
    assert!(output.contains("feature\tfeature\t-\t"));
    assert!(!output.contains("feature\tfeature\ttest\t"));

    let porcelain = String::from_utf8(world.list_porcelain(&app, false)).unwrap();
    assert!(porcelain.contains("agent -\nsession active\n"));
}

#[test]
fn porcelain_list_keeps_a_live_session_active_when_pane_query_fails() {
    let mut world = World::new();
    let sessions = PaneSessions::default();
    let app = test_app(&world, sessions.clone());

    world.run(&app, "feature").unwrap();
    sessions.state.borrow_mut().pane_error = Some("pane query failed".to_owned());

    let target = String::from_utf8(world.target("feature")).unwrap();
    let expected =
        format!("name feature\nbranch feature\nagent -\nsession active\npath {target}\n");
    assert_eq!(world.list_porcelain(&app, false), expected.as_bytes());
}

#[test]
fn porcelain_list_does_not_mark_an_unmanaged_live_session_active() {
    let mut world = World::new();
    let app = test_app(&world, FakeSessions::default());

    world.run(&app, "feature").unwrap();
    let state_path = world.state_path("feature");
    world.states.remove(&state_path);

    let output = String::from_utf8(world.list_porcelain(&app, false)).unwrap();
    assert!(output.contains("agent -\nsession unknown\n"));
    assert!(!output.contains("session active\n"));
}

fn without_pane(record: &str) -> String {
    record
        .lines()
        .filter(|line| !line.starts_with("pane="))
        .collect::<Vec<_>>()
        .join("\n")
        + "\n"
}

#[test]
fn list_preserves_active_status_for_a_live_legacy_session() {
    let mut world = World::new();
    let app = test_app(&world, FakeSessions::default());

    world.run(&app, "feature").unwrap();
    let state_path = world.state_path("feature");
    let legacy = without_pane(&world.states[&state_path]);
    world.states.insert(state_path, legacy);

    assert!(world.list(&app).contains("feature\tfeature\ttest\t"));
}

#[test]
fn prompt_forwards_exact_message_without_loading_config_or_attaching() {
    let mut world = World::new();
    let sessions = FakeSessions::default();
    let app = test_app(&world, sessions.clone());
    let worktree = "feature";

    world.run(&app, worktree).unwrap();
    let attached = sessions.state.borrow().attached.len();
    let created = sessions.state.borrow().created.len();
    world.config = None;

    let message = "-literal 'quotes' $() 😀\tline one\nline two";
    world.prompt(&app, worktree, message).unwrap();

    assert_eq!(
        sessions.state.borrow().deliveries,
        vec![(session_name(&world.id(), worktree), message.to_owned())]
    );
    assert_eq!(sessions.state.borrow().attached.len(), attached);
    assert_eq!(sessions.state.borrow().created.len(), created);
}

#[test]
fn prompt_rejects_unknown_worktree_and_does_not_deliver() {
    let mut world = World::new();
    let sessions = FakeSessions::default();
    let app = test_app(&world, sessions.clone());

    let error = world.prompt(&app, "unknown", "message").unwrap_err();

    assert!(error.text().contains("managed worktree does not exist"));
    assert!(sessions.state.borrow().deliveries.is_empty());
}

#[test]
fn prompt_rejects_dead_session() {
    let mut world = World::new();
    let sessions = FakeSessions::default();
    let app = test_app(&world, sessions.clone());
    let worktree = "feature";

    world.run(&app, worktree).unwrap();
    sessions
        .state
        .borrow_mut()
        .live
        .remove(&session_name(&world.id(), worktree));

    let error = world.prompt(&app, worktree, "message").unwrap_err();

    assert!(error.text().contains("not running"));
    assert!(sessions.state.borrow().deliveries.is_empty());
}

#[test]
fn prompt_rejects_a_deleted_worktree_checkout() {
    let mut world = World::new();
    let sessions = FakeSessions::default();
    let app = test_app(&world, sessions.clone());
    let worktree = "feature";

    world.run(&app, worktree).unwrap();
    let target = world.target(worktree);
    world.directories.remove(&target);

    let error = world.prompt(&app, worktree, "message").unwrap_err();

    assert!(error.text().contains("managed worktree does not exist"));
    assert!(sessions.state.borrow().deliveries.is_empty());
}

#[test]
fn prompt_rejects_a_worktree_symlink_escape() {
    let mut world = World::new();
    let sessions = FakeSessions::default();
    let app = test_app(&world, sessions.clone());
    let worktree = "feature";

    world.run(&app, worktree).unwrap();
    let target = world.target(worktree);
    world.directories.remove(&target);
    world.make(b"/outside/checkout");
    world.links.insert(target, b"/outside/checkout".to_vec());

    let error = world.prompt(&app, worktree, "message").unwrap_err();

    assert!(error.text().contains("escapes the managed directory"));
    assert!(sessions.state.borrow().deliveries.is_empty());
}

#[test]
fn list_omits_a_registered_worktree_that_resolves_outside_the_managed_directory() {
    let mut world = World::new();
    let app = test_app(&world, FakeSessions::default());
    let worktree = "feature";

    world.run(&app, worktree).unwrap();
    let target = world.target(worktree);
    world.directories.remove(&target);
    world.make(b"/outside/feature");
    world.links.insert(target, b"/outside/feature".to_vec());

    let output = world.list(&app);

    assert!(!output.contains("feature\tfeature\t"));
    assert!(output.contains("No managed worktrees."));
}

#[test]
fn prompt_rejects_unmanaged_live_session() {
    let mut world = World::new();
    let sessions = FakeSessions::default();
    let app = test_app(&world, sessions.clone());
    let worktree = "feature";

    world.run(&app, worktree).unwrap();
    let state_path = world.state_path(worktree);
    world.states.remove(&state_path);

    let error = world.prompt(&app, worktree, "message").unwrap_err();

    assert!(error.text().contains("not managed by david"));
    assert!(sessions.state.borrow().deliveries.is_empty());
}

#[test]
fn prompt_rejects_mismatched_session_metadata() {
    let mut world = World::new();
    let sessions = FakeSessions::default();
    let app = test_app(&world, sessions.clone());
    let worktree = "feature";

    world.run(&app, worktree).unwrap();
    let state_path = world.state_path(worktree);
    let record = world.states[&state_path].replace("worktree_name=feature", "worktree_name=other");
    world.states.insert(state_path, record);

    let error = world.prompt(&app, worktree, "message").unwrap_err();

    assert!(error.text().contains("metadata does not match"));
    assert!(sessions.state.borrow().deliveries.is_empty());
}

#[test]
fn prompt_reports_backend_delivery_failure_without_attach_or_create() {
    let mut world = World::new();
    let sessions = FakeSessions::default();
    let app = test_app(&world, sessions.clone());
    let worktree = "feature";

    world.run(&app, worktree).unwrap();
    let attached = sessions.state.borrow().attached.len();
    let created = sessions.state.borrow().created.len();
    sessions.state.borrow_mut().prompt_error = Some("transport unavailable".to_owned());

    let error = world.prompt(&app, worktree, "message").unwrap_err();

    assert!(error.text().contains("transport unavailable"));
    assert!(sessions.state.borrow().deliveries.is_empty());
    assert_eq!(sessions.state.borrow().attached.len(), attached);
    assert_eq!(sessions.state.borrow().created.len(), created);
}

#[test]
fn noninteractive_missing_selection_exits_two_without_waiting_or_creating() {
    for args in [
        vec!["david", "run", "feature"],
        vec!["david", "run", "--no-interactive", "feature"],
    ] {
        let mut world = World::new();
        let mut config = Config::default();
        config.insert("codex".to_owned(), agent("echo", &[]));
        config.insert("other".to_owned(), agent("echo", &[]));
        let sketch = ConfigSketch::Present {
            has_default: config.default_agent.is_some(),
            agents: config.agents.len(),
        };
        world.config = Some(config);
        let app = test_app(&world, FakeSessions::default());

        let Command::Run {
            name, agent, tmux, detach, ..
        } = Cli::try_parse_from(&args).unwrap().command
        else {
            panic!("not a run");
        };
        let plan = plan_run(name.is_some(), tmux, detach, false).unwrap();
        assert!(plan.agent_first);
        assert!(!direct_agent_is_resolvable(agent.is_some(), &None, sketch));

        let error = world
            .run_with(&app, REPO, "feature", scripted(None, &[]))
            .unwrap_err();
        assert_eq!(error.exit_code(), 2, "{}", error.text());
        assert!(error.text().contains("non-interactive"));
        assert!(!world.directories.contains(&world.paths().worktrees));
    }
}

#[test]
fn environment_agent_overrides_another_configured_default() {
    let mut world = World::new();
    let mut config = Config::default();
    config.insert("codex".to_owned(), agent("sleep", &["30"]));
    config.insert("other".to_owned(), agent("missing-agent", &[]));
    config.default_agent = Some("other".to_owned());
    world.config = Some(config);
    world.commands.insert("sleep".to_owned());
    world.variable = Some("codex".to_owned());
    let sessions = FakeSessions::default();
    let app = test_app(&world, sessions.clone());

    world
        .run_with(&app, REPO, "feature", scripted(None, &[]))
        .unwrap();
    assert!(world.directories.contains(&world.target("feature")));
    assert_eq!(sessions.state.borrow().started[0].1, "sleep");
    world.remove(&app, REPO, "feature", true).unwrap();
}

#[test]
fn noninteractive_run_uses_default_agent_and_literal_runtime_argv_without_attach() {
    let mut world = World::new();
    let mut config = Config::default();
    config.insert("codex".to_owned(), agent("/home/user/agent.sh", &["configured"]));
    config.insert("other".to_owned(), agent("missing-agent", &[]));
    config.default_agent = Some("codex".to_owned());
    world.config = Some(config);
    world.commands.insert("/home/user/agent.sh".to_owned());
    let sessions = FakeSessions::default();
    let app = test_app(&world, sessions.clone());

    let Command::Run { agent_args, .. } = Cli::try_parse_from(&[
        "david",
        "run",
        "--no-interactive",
        "feature",
        "--",
        "--model",
        "gpt 5.6",
        "$()",
    ])
    .unwrap()
    .command
    else {
        panic!("not a run");
    };
    let words: Vec<&str> = agent_args.iter().map(String::as_str).collect();
    world
        .run_with(&app, REPO, "feature", scripted(None, &words))
        .unwrap();

    assert!(world.directories.contains(&world.target("feature")));
    assert_eq!(
        sessions.state.borrow().started[0].2,
        ["configured", "--model", "gpt 5.6", "$()"]
    );
    assert!(sessions.state.borrow().attached.is_empty());
    world.remove(&app, REPO, "feature", true).unwrap();
}

#[test]
fn run_execs_the_agent_directly_in_the_managed_worktree_by_default() {
    let mut world = World::new();
    let mut config = Config::default();
    config.insert("test".to_owned(), agent("/home/user/agent.sh", &[]));
    config.default_agent = Some("test".to_owned());
    world.config = Some(config);
    world.commands.insert("/home/user/agent.sh".to_owned());

    let Command::Run {
        name,
        tmux,
        detach,
        agent_args,
        ..
    } = Cli::try_parse_from(&[
        "david",
        "run",
        "--no-interactive",
        "feature-login",
        "--",
        "--model",
        "gpt 5.6",
    ])
    .unwrap()
    .command
    else {
        panic!("not a run");
    };
    let plan = plan_run(name.is_some(), tmux, detach, false).unwrap();
    assert_eq!(plan.backend, Backend::Direct);
    assert!(plan.attach);

    let paths = DavidPaths::from_base_directories(&world.home, &None, &None, &None);
    let sessions = FakeSessions::default();
    let app = App::with_picker(paths, sessions.clone(), FirstAgentPicker);
    let options = RunOptions {
        agent: None,
        agent_args,
        interactive: plan.interactive,
        attach: plan.attach,
    };
    world
        .run_with(&app, REPO, "feature-login", options)
        .unwrap();

    let worktree = [
        b"/home/user/.local/share/david/worktrees/".as_slice(),
        world.id().as_bytes(),
        b"/feature-login",
    ]
    .concat();
    assert_eq!(
        sessions.state.borrow().started,
        vec![(
            worktree,
            "/home/user/agent.sh".to_owned(),
            vec!["--model".to_owned(), "gpt 5.6".to_owned()]
        )]
    );
    assert_eq!(sessions.state.borrow().attached.len(), 1);
}

#[test]
fn worktrees_are_created_only_from_clean_sources_under_the_lock() {
    let mut world = World::new();
    let app = test_app(&world, FakeSessions::default());
    world.dirty.insert(REPO.to_vec());

    let error = world.run(&app, "feature").unwrap_err();
    assert_eq!(
        error.text(),
        "source repository has uncommitted changes; commit or stash them first"
    );
    assert_eq!(world.position(Step::AddWorktree), None);

    world.dirty.clear();
    world.steps.clear();
    world.run(&app, "feature").unwrap();
    let add = world.position(Step::AddWorktree).unwrap();
    for earlier in [
        Step::Locate,
        Step::Lock,
        Step::Contain,
        Step::CheckHead,
        Step::CheckSource,
        Step::CheckBranchName,
        Step::CheckCommand,
    ] {
        assert!(world.position(earlier).unwrap() < add);
    }
    assert!(add < world.position(Step::CreateSession).unwrap());
    assert_eq!(
        world.steps.len(),
        world
            .steps
            .iter()
            .map(|step| format!("{step:?}"))
            .collect::<BTreeSet<_>>()
            .len()
    );
    assert_eq!(
        world.steps[world.steps.len() - 2],
        Step::AttachAgent
    );
}

#[test]
fn removals_stop_the_session_before_the_worktree_and_the_branch_go() {
    let mut world = World::new();
    let app = test_app(&world, FakeSessions::default());
    world.run(&app, "feature").unwrap();
    world.steps.clear();

    world.remove(&app, REPO, "feature", false).unwrap();
    let stop = world.position(Step::StopSession).unwrap();
    let recheck = world.position(Step::RecheckWorktree).unwrap();
    let remove = world.position(Step::RemoveWorktree).unwrap();
    let branch = world.position(Step::DeleteBranch).unwrap();
    assert!(stop < recheck && recheck < remove && remove < branch);
    assert_eq!(world.position(Step::CreateSession), None);
    assert!(!world.states.contains_key(&world.state_path("feature")));
}

#[test]
fn rebased_worktrees_can_be_used_again_but_not_other_detached_ones() {
    let mut world = World::new();
    let sessions = FakeSessions::default();
    let app = test_app(&world, sessions.clone());
    world.run(&app, "feature").unwrap();
    world.worktrees[1].branch = None;

    let error = world.run(&app, "feature").unwrap_err();
    assert!(error.text().contains("expected branch"));

    world.rebasing = Some("feature".to_owned());
    world.run(&app, "feature").unwrap();
    world.drive(&app, REPO, app.attach("feature")).unwrap();
    assert_eq!(sessions.state.borrow().created.len(), 1);
    assert_eq!(sessions.state.borrow().attached.len(), 3);

    sessions.state.borrow_mut().live.clear();
    assert!(world.run(&app, "feature").is_err());
    assert_eq!(sessions.state.borrow().created.len(), 1);
    assert!(world.remove(&app, REPO, "feature", true).is_err());
}

#[test]
fn sessions_that_say_something_else_of_themselves_are_left_alone() {
    let mut world = World::new();
    let sessions = FakeSessions::default();
    let app = test_app(&world, sessions.clone());
    world.run(&app, "feature").unwrap();
    sessions.state.borrow_mut().metadata_error = Some("not this one".to_owned());

    for result in [
        world.run(&app, "feature"),
        world.prompt(&app, "feature", "message"),
        world.remove(&app, REPO, "feature", true),
        world.drive(&app, REPO, app.attach("feature")).map(|_| ()),
    ] {
        assert_eq!(result.unwrap_err().text(), "not this one");
    }
    assert!(sessions.state.borrow().killed.is_empty());
    assert!(sessions.state.borrow().deliveries.is_empty());
    assert_eq!(sessions.state.borrow().attached.len(), 1);
}

#[test]
fn agents_are_selected_before_anything_is_created() {
    let mut world = World::new();
    let app = test_app(&world, FakeSessions::default());

    let error = world
        .run_with(&app, REPO, "feature", scripted(Some("missing"), &[]))
        .unwrap_err();
    assert!(error.text().contains("missing"));
    assert_eq!(error.exit_code(), 1);

    world.commands.clear();
    let error = world.run(&app, "feature").unwrap_err();
    assert!(error.text().contains("echo"));

    world.config = None;
    let error = world.run(&app, "feature").unwrap_err();
    assert!(error.text().starts_with("agent configuration not found at"));
    assert!(world.worktrees.len() == 1 && world.states.is_empty());
}

#[test]
fn people_select_among_several_agents() {
    let mut world = World::new();
    let mut config = Config::default();
    config.insert("beta".to_owned(), agent("echo", &["b"]));
    config.insert("alpha".to_owned(), agent("echo", &["a"]));
    world.config = Some(config);
    let sessions = FakeSessions::default();
    let app = test_app(&world, sessions.clone());
    let mut wanted = options();
    wanted.agent_args = vec!["--more".to_owned()];

    world.run_with(&app, REPO, "feature", wanted).unwrap();
    assert_eq!(sessions.state.borrow().started[0].2, ["a", "--more"]);
    assert!(world.states[&world.state_path("feature")].contains("agent=alpha\n"));
}

#[test]
fn reused_sessions_keep_their_agent() {
    let mut world = World::new();
    let mut config = Config::default();
    config.insert("test".to_owned(), agent("echo", &[]));
    config.insert("other".to_owned(), agent("echo", &[]));
    world.config = Some(config);
    let sessions = FakeSessions::default();
    let app = test_app(&world, sessions.clone());
    world
        .run_with(&app, REPO, "feature", scripted(Some("test"), &[]))
        .unwrap();

    world
        .run_with(&app, REPO, "feature", scripted(Some("other"), &[]))
        .unwrap();
    assert_eq!(sessions.state.borrow().created.len(), 1);
    assert!(world.states[&world.state_path("feature")].contains("agent=test\n"));
    assert_metadata(
        &sessions.state.borrow().configured[1].1,
        "project",
        "feature",
        "test",
    );
    assert!(sessions.state.borrow().attached.is_empty());
}

#[test]
fn failing_steps_end_an_operation_with_their_error() {
    for step in ["Locate", "Lock", "CheckHead", "AddWorktree", "WriteState"] {
        let mut world = World::new();
        let sessions = FakeSessions::default();
        let app = test_app(&world, sessions.clone());
        world
            .failing
            .insert(step.to_owned(), format!("{step} does not work"));

        let error = world.run(&app, "feature").unwrap_err();
        assert_eq!(error.text(), format!("{step} does not work"));
        assert!(sessions.state.borrow().created.is_empty());
    }
}

#[test]
fn names_are_refused_before_the_repository_is_looked_at() {
    let mut world = World::new();
    let app = test_app(&world, FakeSessions::default());
    for name in ["", "-x", "../up", "/abs"] {
        assert!(world.path(&app, name, false).is_err());
        assert!(world.run(&app, name).is_err());
    }
    assert_eq!(world.position(Step::Locate), None);
}

#[test]
fn places_that_are_taken_are_not_used() {
    let mut world = World::new();
    let target = world.target("feature");
    world.make(&target);
    let app = test_app(&world, FakeSessions::default());

    let error = world.run(&app, "feature").unwrap_err();
    assert_eq!(
        error.text(),
        format!(
            "managed worktree path already exists but is not a Git worktree: {}",
            String::from_utf8(target).unwrap()
        )
    );
    assert_eq!(world.position(Step::AddWorktree), None);
}

#[test]
fn stale_records_are_removed_only_if_they_fit() {
    let mut world = World::new();
    let sessions = FakeSessions::default();
    let app = test_app(&world, sessions.clone());
    world.run(&app, "feature").unwrap();
    sessions.state.borrow_mut().live.clear();

    let path = world.state_path("feature");
    let record = world.states[&path].clone();
    world
        .states
        .insert(path.clone(), record.replace("branch=feature", "branch=other"));
    assert_eq!(
        world.run(&app, "feature").unwrap_err().text(),
        "session metadata does not match the requested worktree feature"
    );
    assert!(world.states.contains_key(&path));

    world.states.insert(path, record);
    world.run(&app, "feature").unwrap();
    assert!(world.position(Step::RemoveStale).is_some());
}

#[test]
fn editors_are_opened_without_sessions() {
    let mut world = World::new();
    let target = world.target("feature");
    world.add("feature", &target);
    let app = test_app(&world, FakeSessions::default());

    world.drive(&app, REPO, app.edit("feature")).unwrap();
    assert!(world.position(Step::OpenEditor).is_some());
    assert_eq!(world.position(Step::EnsureAvailable), None);
    assert_eq!(world.position(Step::Lock), None);
}

#[test]
fn starts_that_fail_leave_neither_record_nor_session() {
    for step in ["CheckStarted", "CheckAgent", "WritePane"] {
        let mut world = World::new();
        let sessions = FakeSessions::default();
        let app = test_app(&world, sessions.clone());
        world
            .failing
            .insert(step.to_owned(), format!("{step} does not work"));

        let error = world.run(&app, "feature").unwrap_err();
        assert_eq!(error.text(), format!("{step} does not work"));
        assert!(sessions.state.borrow().live.is_empty());
        assert!(world.states.is_empty());
        assert!(world.position(Step::DropState) < world.position(Step::DropSession));
    }
}

#[test]
fn failed_cleanups_are_reported_with_what_led_to_them() {
    let session = session_name(&World::new().id(), "feature");
    for (steps, text) in [
        (
            vec!["Configure", "CheckFailed"],
            "Configure; could not verify agent session cleanup: CheckFailed".to_owned(),
        ),
        (
            vec!["Configure", "KillFailed"],
            "Configure; failed to clean up agent session: KillFailed".to_owned(),
        ),
        (
            vec!["Configure", "RemoveFailed"],
            "Configure; failed to remove session metadata: RemoveFailed".to_owned(),
        ),
        (
            vec!["Configure"],
            "Configure".to_owned(),
        ),
        (
            vec!["CreateSession", "DropState", "DropSession"],
            "CreateSession".to_owned(),
        ),
    ] {
        let mut world = World::new();
        let app = test_app(&world, FakeSessions::default());
        for step in steps {
            world.failing.insert(step.to_owned(), step.to_owned());
        }
        assert_eq!(world.run(&app, "feature").unwrap_err().text(), text);
    }

    let mut world = World::new();
    let app = test_app(&world, FakeSessions::default());
    world.run(&app, "feature").unwrap();
    world.failing.insert("Deliver".to_owned(), "full".to_owned());
    assert_eq!(
        world.prompt(&app, "feature", "message").unwrap_err().text(),
        format!("failed to deliver prompt to agent session {session}: full")
    );
}

#[test]
fn branches_that_have_moved_are_kept() {
    let mut world = World::new();
    let app = test_app(&world, FakeSessions::default());
    world.run(&app, "feature").unwrap();
    world.tip = "def".to_owned();

    let error = world.remove(&app, REPO, "feature", true).unwrap_err();
    assert_eq!(error.text(), "the branch has moved");
    assert!(world.branches.contains("feature"));
    assert!(!world.directories.contains(&world.target("feature")));
}

#[test]
fn git_is_asked_where_the_step_belongs() {
    let mut world = World::new();
    let app = test_app(&world, FakeSessions::default());
    world.run(&app, "feature").unwrap();
    let target = world.target("feature");

    let mut flow = app.remove("feature", false);
    assert!(flow.git_command().is_none());
    let project = repository_name(COMMON, &None, REPO).unwrap();
    let location = Location::new(&app.paths, REPO.to_vec(), world.id(), project, "feature");
    assert!(app.perform(&mut flow));
    flow.record_location(location);
    flow.record_done(Ok(()));
    flow.record_done(Ok(()));
    assert_eq!(flow.next(), Step::Find);
    let (directory, command) = flow.git_command().unwrap();
    assert_eq!(directory, REPO);
    assert!(matches!(command, GitCommand::Worktrees));
    flow.record_worktree(world.worktrees.pop());
    assert_eq!(flow.next(), Step::CheckWorktree);
    let (directory, command) = flow.git_command().unwrap();
    assert_eq!(directory, target);
    assert!(matches!(command, GitCommand::Status));
}

#[test]
fn the_first_failure_is_the_answer() {
    let mut world = World::new();
    let app = test_app(&world, FakeSessions::default());
    for step in ["CreateSession", "DropState", "DropSession"] {
        world.failing.insert(step.to_owned(), format!("{step} fails"));
    }
    assert_eq!(
        world.run(&app, "feature").unwrap_err().text(),
        "CreateSession fails"
    );
    let flow = app.run("feature", options());
    assert!(flow.failures.is_empty() && flow.pane.is_none() && flow.head.is_empty());
}
