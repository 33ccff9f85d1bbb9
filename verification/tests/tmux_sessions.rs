use std::collections::{BTreeMap, BTreeSet};

use david::config::Agent;
use david::error::{IoFailure, ToolError};
use david::identity::{session_key_tables, stable_hash};
use david::keys::{bindings, configure_key_table, KeyTask};
use david::process::CommandOutput;
use david::prompting::{delivered, delivery, prompt_buffer_name, DeliveryEvent};
use david::settings::{adorn, describe, validate_session_metadata};
use david::state::SessionMetadata;
use david::tasks::{
    attach, clear_key_tables, create_session_with_pane, kill_session, prompt_address,
    session_exists, set_option, show_option, Answer, OptionSetting, Task,
};
use david::tmux::{
    agent_pane, check_pane_id, ensure_available, has_session, pane_is_alive, session_id,
    session_window_target, TmuxBackend, TmuxCommand,
};

fn ended(success: bool, stdout: &str, stderr: &str) -> CommandOutput {
    CommandOutput {
        success,
        code: Some(if success { 0 } else { 1 }),
        status: format!("exit status: {}", if success { 0 } else { 1 }),
        stdout: stdout.as_bytes().to_vec(),
        stderr: stderr.as_bytes().to_vec(),
    }
}

fn prints(text: &str) -> Answer {
    Answer::Ended(ended(true, text, ""))
}

fn fails(text: &str) -> Answer {
    Answer::Ended(ended(false, "", text))
}

fn failure(detail: &str) -> IoFailure {
    IoFailure {
        not_found: false,
        detail: detail.to_owned(),
    }
}

fn words(arguments: &[Vec<u8>]) -> Vec<String> {
    arguments
        .iter()
        .map(|word| String::from_utf8(word.clone()).unwrap())
        .collect()
}

fn asked(task: Task) -> Vec<String> {
    match task {
        Task::Ask(command) | Task::Join(command) => words(&command.arguments()),
        other => panic!("nothing asked: {other:?}"),
    }
}

fn problem(task: Task) -> String {
    match task {
        Task::Fail(error) | Task::Abandon(error) => error.text(),
        other => panic!("no failure: {other:?}"),
    }
}

/// A tmux server, in memory.
#[derive(Default)]
struct Server {
    sessions: BTreeMap<String, String>,
    options: BTreeMap<(String, String), String>,
    tables: BTreeMap<String, Vec<String>>,
    files: BTreeMap<Vec<u8>, Vec<u8>>,
    directories: BTreeSet<Vec<u8>>,
    typed: Vec<u8>,
    count: usize,
}

fn bare(target: &str) -> String {
    target
        .trim_start_matches('=')
        .split(':')
        .next()
        .unwrap()
        .to_owned()
}

impl Server {
    fn new() -> Server {
        let mut server = Server::default();
        server.tables.insert(
            "root".to_owned(),
            vec!["bind-key -T root MouseDown1Pane select-pane -t =".to_owned()],
        );
        server.tables.insert(
            "prefix".to_owned(),
            vec!["bind-key -T prefix d detach-client".to_owned()],
        );
        server
    }

    fn by_target(&self, target: &str) -> Option<String> {
        let name = bare(target);
        if self.sessions.contains_key(&name) {
            return Some(name);
        }
        self.sessions
            .iter()
            .find(|(_, id)| id.as_str() == target)
            .map(|(name, _)| name.clone())
    }

    fn answer(&mut self, command: &TmuxCommand) -> Answer {
        match command {
            TmuxCommand::Version => prints("tmux 3.4\n"),
            TmuxCommand::HasSession { session } => {
                if self.sessions.contains_key(session) {
                    prints("")
                } else {
                    fails("can't find session")
                }
            }
            TmuxCommand::ListSessions => {
                let lines: Vec<String> = self
                    .sessions
                    .iter()
                    .map(|(name, id)| format!("{name}\t{id}\n"))
                    .collect();
                prints(&lines.concat())
            }
            TmuxCommand::NewSession { session, .. } => {
                let id = format!("${}", self.count);
                self.sessions.insert(session.clone(), id);
                self.options
                    .insert((session.clone(), "key-table".to_owned()), "root".to_owned());
                self.count += 1;
                prints(&format!("%{}\n", self.count))
            }
            TmuxCommand::KillSession { id } => {
                self.sessions.retain(|_, other| other != id);
                prints("")
            }
            TmuxCommand::ListWindows { .. } => prints("0\n"),
            TmuxCommand::ListPanes { session } => {
                prints(&format!("%{}|{session}|0\n", self.count))
            }
            TmuxCommand::DescribePane { .. } => {
                prints(&format!("{}|0|0\n", self.sessions.keys().next().unwrap()))
            }
            TmuxCommand::SetOption {
                target,
                option,
                value,
            }
            | TmuxCommand::SetWindowOption {
                target,
                option,
                value,
            } => match self.by_target(target) {
                Some(name) => {
                    self.options.insert((name, option.clone()), value.clone());
                    prints("")
                }
                None => fails("no such session"),
            },
            TmuxCommand::SetServerOption { option, value } => {
                self.options
                    .insert((String::new(), option.clone()), value.clone());
                prints("")
            }
            TmuxCommand::ShowOption { target, option } => {
                let name = self.by_target(target).unwrap();
                let value = self.options.get(&(name, option.clone()));
                prints(&format!("{}\n", value.cloned().unwrap_or_default()))
            }
            TmuxCommand::ListKeys { table } => {
                let lines = self.tables.get(table).cloned().unwrap_or_default();
                prints(&(lines.join("\n") + "\n"))
            }
            TmuxCommand::ClearKeys { table } => {
                self.tables.remove(table);
                prints("")
            }
            TmuxCommand::SourceFile { path } => {
                let content = String::from_utf8(self.files[path].clone()).unwrap();
                for line in content.lines() {
                    let mut rest = line.split_whitespace().skip_while(|word| *word != "-T");
                    rest.next();
                    if let Some(table) = rest.next() {
                        self.tables
                            .entry(table.to_owned())
                            .or_default()
                            .push(line.to_owned());
                    }
                }
                prints("")
            }
            TmuxCommand::Enter { .. } => {
                self.typed.push(b'\n');
                prints("")
            }
            other => panic!("not expected: {other:?}"),
        }
    }

    fn perform(&mut self, next: impl Fn(&Vec<Answer>) -> Task) -> Result<Option<String>, ToolError> {
        let mut answers = Vec::new();
        loop {
            match next(&answers) {
                Task::Ask(command) | Task::Join(command) => answers.push(self.answer(&command)),
                Task::Finish(value) => return Ok(value),
                Task::Fail(error) | Task::Abandon(error) => return Err(error),
            }
        }
    }

    fn create(&mut self, name: &str) -> String {
        let agent = Agent {
            command: "sleep".to_owned(),
            args: vec!["30".to_owned()],
        };
        self.perform(|answers| create_session_with_pane(name, b"/w", &agent, answers))
            .unwrap()
            .unwrap()
    }

    fn set_all(&mut self, name: &str, list: Vec<OptionSetting>) {
        for setting in list {
            self.perform(|answers| set_option(name, &setting, answers))
                .unwrap();
        }
    }

    fn configure(&mut self, name: &str, metadata: &SessionMetadata) {
        self.set_all(name, describe(metadata));
        self.key_table(name).unwrap();
        self.set_all(name, adorn(metadata));
    }

    fn key_table(&mut self, name: &str) -> Result<(), ToolError> {
        let mut answers = Vec::new();
        loop {
            let answer = match configure_key_table(name, b"/tmp", 7, &answers) {
                KeyTask::Ask(command) => self.answer(&command),
                KeyTask::MakeDirectory(path) => {
                    assert!(self.directories.insert(path));
                    Answer::Done
                }
                KeyTask::CreateFile(path) => {
                    self.files.insert(path, Vec::new());
                    Answer::Done
                }
                KeyTask::WriteFile(path, content) => {
                    self.files.insert(path, content);
                    Answer::Done
                }
                KeyTask::RemoveFile(path) => {
                    self.files.remove(&path).unwrap();
                    Answer::Done
                }
                KeyTask::RemoveDirectory(path) => {
                    assert!(self.directories.remove(&path));
                    Answer::Done
                }
                KeyTask::Finish => return Ok(()),
                KeyTask::Fail(error) => return Err(error),
            };
            answers.push(answer);
        }
    }

    fn option(&mut self, name: &str, option: &str) -> String {
        self.perform(|answers| show_option(name, option, answers))
            .unwrap()
            .unwrap()
    }

    fn lives(&mut self, name: &str) -> bool {
        let command = TmuxCommand::HasSession {
            session: name.to_owned(),
        };
        session_exists(&self.answer(&command)).unwrap()
    }
}

#[test]
fn tmux_backend_configures_managed_session_affordances_when_tmux_is_available() {
    let session = format!("david-test-1-{}", stable_hash("tmux-configure"));
    let metadata = SessionMetadata {
        project_name: "source-%H-#{session_name}".to_owned(),
        worktree_name: "feature-#[fg=red]-%M".to_owned(),
        agent_name: "codex-#S-%d".to_owned(),
    };
    let mut server = Server::new();

    server.create(&session);
    assert_eq!(
        server.options[&(session.clone(), "status".to_owned())],
        "off"
    );
    server.configure(&session, &metadata);
    assert!(server.lives(&session));

    let first_table = server.option(&session, "key-table");
    server.configure(&session, &metadata);
    let second_table = server.option(&session, "key-table");
    assert_ne!(first_table, second_table);
    assert_eq!(server.option(&session, "status"), "on");
    assert_eq!(
        server.option(&session, "@david-project"),
        metadata.project_name
    );
    assert_eq!(
        server.option(&session, "@david-worktree"),
        metadata.worktree_name
    );
    assert_eq!(server.option(&session, "@david-agent"), metadata.agent_name);
    let left = server.option(&session, "status-left");
    assert!(left.contains("@david-project"));
    let right = server.option(&session, "status-right");
    assert_eq!(right, "detach: Ctrl-]");

    let (one, other) = session_key_tables(&session);
    assert!([&one, &other].contains(&&second_table));
    let keys = server.tables[&second_table].clone();
    assert!(keys
        .iter()
        .any(|line| line.contains("C-]") && line.contains("detach-client")));
    assert!(keys.iter().any(|line| line.contains("MouseDown1Pane")));
    assert!(!server.tables.contains_key(&first_table));
    assert!(server.tables["prefix"]
        .iter()
        .any(|line| line.contains(" d ") && line.contains("detach-client")));

    let rendered = left
        .replace("#{@david-project}", &metadata.project_name)
        .replace("#{@david-worktree}", &metadata.worktree_name)
        .replace("#{@david-agent}", &metadata.agent_name);
    assert_eq!(
        format!("{rendered}|{right}"),
        format!(
            "[DAVID] project: {} | worktree: {} | agent: {}|detach: Ctrl-]",
            metadata.project_name, metadata.worktree_name, metadata.agent_name
        )
    );
    assert_eq!(
        server.option(&session, "status-left-length"),
        rendered.chars().count().to_string()
    );

    server
        .perform(|answers| kill_session(&session, answers))
        .unwrap();
    assert!(!server.lives(&session));
    assert!(!server.tables.contains_key(&one) && !server.tables.contains_key(&other));
    assert!(server.files.is_empty() && server.directories.is_empty());
}

#[test]
fn tmux_backend_manages_a_session_when_tmux_is_available() {
    let session = format!("david-test-1-{}", stable_hash("tmux-manages"));
    let mut server = Server::new();

    server.create(&session);
    assert!(server.lives(&session));
    server
        .perform(|answers| kill_session(&session, answers))
        .unwrap();
    assert!(!server.lives(&session));
}

#[test]
fn tmux_backend_delivers_prompt_to_the_managed_agent_pane() {
    let message = "literal Enter C-c Space; $() 😀\nsecond line";
    let session = format!("david-test-1-{}", stable_hash("prompt-delivery"));
    let mut server = Server::new();

    let pane = server.create(&session);
    assert!(pane.starts_with('%'));
    let target = server
        .perform(|answers| prompt_address(&session, &Some(pane.clone()), answers))
        .unwrap()
        .unwrap();
    assert_eq!(target, format!("={session}:0.{pane}"));
    let sent = delivery(&target, message, "buffer");
    assert!(matches!(sent.command, TmuxCommand::Paste { .. }));
    server.typed.extend_from_slice(&sent.input);
    server.answer(&TmuxCommand::Enter { pane: target });

    let mut expected = message.as_bytes().to_vec();
    expected.push(b'\n');
    assert_eq!(server.typed, expected);
}

#[test]
fn tmux_prompt_uses_exact_bytes_and_targeted_buffer_sequence() {
    let message = "-literal 'quotes' $() 😀\tline one\nline two";
    let mut answers = Vec::new();
    assert!(asked(prompt_address("david-managed", &None, &answers)).contains(&"list-panes".to_owned()));
    answers.push(prints("%42|david-managed|0\n"));
    assert!(asked(prompt_address("david-managed", &None, &answers))
        .contains(&"display-message".to_owned()));
    answers.push(prints("david-managed|0|0\n"));
    let Task::Finish(Some(pane)) = prompt_address("david-managed", &None, &answers) else {
        panic!("no pane");
    };
    assert_eq!(pane, "=david-managed:0.%42");

    let sent = delivery(&pane, message, &prompt_buffer_name(12, 3));
    let args = words(&sent.command.arguments());
    let load = args.iter().position(|arg| arg == "load-buffer").unwrap();
    let buffer = args[load + 2].clone();
    assert!(buffer.is_ascii());
    assert_eq!(buffer, "david-prompt-12-3");
    assert_eq!(sent.buffer.as_deref(), Some("david-prompt-12-3"));
    let pane = "=david-managed:0.%42";
    assert_eq!(
        &args[load..],
        &[
            "load-buffer",
            "-b",
            buffer.as_str(),
            "-",
            ";",
            "paste-buffer",
            "-dprS",
            "-b",
            buffer.as_str(),
            "-t",
            pane,
            ";",
            "send-keys",
            "-t",
            pane,
            "Enter",
        ]
    );
    assert!(!args.iter().any(|arg| arg == message));
    assert_eq!(sent.input, message.as_bytes());

    let empty = delivery(pane, "", "buffer");
    let empty_args = words(&empty.command.arguments());
    assert!(!empty_args.iter().any(|arg| arg == "load-buffer"));
    assert!(!empty_args.iter().any(|arg| arg == "paste-buffer"));
    assert_eq!(
        empty_args
            .iter()
            .filter(|arg| arg.as_str() == "send-keys")
            .count(),
        1
    );
    assert!(empty.input.is_empty());
    assert_eq!(empty.buffer, None);
}

#[test]
fn tmux_create_session_captures_the_initial_pane_from_new_session_output() {
    let agent = Agent {
        command: "echo".to_owned(),
        args: vec!["ready".to_owned()],
    };
    let mut answers = Vec::new();
    let mut all_args = Vec::new();
    for reply in ["%42\n", "7\n", ""] {
        all_args.push(asked(create_session_with_pane(
            "david-managed",
            b"/tmp/directory",
            &agent,
            &answers,
        )));
        answers.push(prints(reply));
    }
    let Task::Finish(pane) =
        create_session_with_pane("david-managed", b"/tmp/directory", &agent, &answers)
    else {
        panic!("not finished");
    };

    assert_eq!(pane.as_deref(), Some("%42"));
    let new_args = &all_args[0];
    let start = new_args
        .iter()
        .position(|arg| arg == "new-session")
        .unwrap();
    assert_eq!(
        &new_args[start..start + 7],
        [
            "new-session",
            "-d",
            "-P",
            "-F",
            "#{pane_id}",
            "-s",
            "david-managed",
        ]
    );
    assert_eq!(
        new_args[start + 7..],
        ["-c", "/tmp/directory", "--", "echo", "ready"]
    );

    let status_args = &all_args[2];
    let status = status_args
        .iter()
        .position(|arg| arg == "set-option")
        .unwrap();
    assert_eq!(
        &status_args[status..],
        ["set-option", "-t", "=david-managed:7", "status", "off"]
    );
    assert!(!all_args.concat().contains(&"list-panes".to_owned()));
}

#[test]
fn tmux_session_window_target_uses_the_first_window_index_and_exact_session() {
    assert_eq!(
        session_window_target("2\n3\n", "david-managed").unwrap(),
        "=david-managed:2"
    );
    let command = TmuxCommand::ListWindows {
        session: "david-managed".to_owned(),
    };
    let args = words(&command.arguments());
    let target = args.iter().position(|arg| arg == "-t").unwrap();
    assert_eq!(args[target + 1], "=david-managed");
}

#[test]
fn tmux_agent_pane_rejects_a_dead_pane() {
    let error = agent_pane("%42|david-managed|1\n", "david-managed").unwrap_err();

    assert!(error.text().contains("dead"));
}

#[test]
fn tmux_persisted_pane_liveness_rejects_dead_pane_targeting() {
    assert!(!pane_is_alive(&ended(true, "david-managed|1\n", ""), "david-managed", "%42").unwrap());
    let answers = vec![prints("david-managed|2|1\n")];
    let task = prompt_address("david-managed", &Some("%42".to_owned()), &answers);

    assert!(problem(task).contains("dead"));
}

#[test]
fn missing_tmux_reports_a_prerequisite_error() {
    let error = ensure_available(Err(IoFailure {
        not_found: true,
        detail: "no such file".to_owned(),
    }))
    .unwrap_err();

    assert!(error.text().contains("tmux is required"));
    assert!(ensure_available(Ok(ended(true, "tmux 3.4", ""))).is_ok());
    assert_eq!(
        ensure_available(Err(failure("denied"))).unwrap_err().text(),
        "I/O error: denied"
    );
}

#[test]
fn tmux_prompt_reports_transport_failure() {
    let output = CommandOutput {
        success: false,
        code: Some(7),
        status: "exit status: 7".to_owned(),
        stdout: Vec::new(),
        stderr: b"delivery failed\n".to_vec(),
    };
    let end = delivered(DeliveryEvent::Ended(output));

    assert!(end.result.unwrap_err().text().contains("delivery failed"));
    assert!(end.forget && !end.stop);
}

#[test]
fn deliveries_end_in_one_of_several_ways() {
    let fine = delivered(DeliveryEvent::Ended(ended(true, "", "")));
    assert!(fine.result.is_ok() && !fine.forget && !fine.stop);

    let unwritten = delivered(DeliveryEvent::NotWritten(failure("broken pipe")));
    assert!(unwritten.stop && unwritten.forget && unwritten.result.is_err());

    let unattended = delivered(DeliveryEvent::NoInput);
    assert!(unattended.stop && unattended.result.is_err());

    let unawaited = delivered(DeliveryEvent::NotAwaited(failure("gone")));
    assert!(!unawaited.stop && unawaited.result.is_err());

    let unstarted = delivered(DeliveryEvent::NotStarted(IoFailure {
        not_found: true,
        detail: String::new(),
    }));
    assert!(unstarted.result.unwrap_err().text().contains("tmux is required"));
}

#[test]
fn commands_leave_the_configuration_of_the_user_alone() {
    let backend = TmuxBackend::new(b"/opt/tmux".to_vec());
    let invocation = backend.command(&TmuxCommand::HasSession {
        session: "a b".to_owned(),
    });
    assert_eq!(invocation.program, b"/opt/tmux");
    assert_eq!(invocation.directory, None);
    assert_eq!(
        words(&invocation.arguments),
        ["-f", "/dev/null", "has-session", "-t", "=a b"]
    );
    let source = backend.command(&TmuxCommand::SourceFile {
        path: b"/tmp/\xff".to_vec(),
    });
    assert_eq!(source.arguments[3], b"/tmp/\xff");
    assert_eq!(
        words(
            &TmuxCommand::SetServerOption {
                option: "extended-keys".to_owned(),
                value: "on".to_owned()
            }
            .arguments()
        )[2..],
        ["set-option", "-s", "extended-keys", "on"]
    );
    assert_eq!(
        words(
            &TmuxCommand::SetWindowOption {
                target: "$1".to_owned(),
                option: "window-style".to_owned(),
                value: "default".to_owned()
            }
            .arguments()
        )[2..],
        ["set-option", "-w", "-t", "$1", "window-style", "default"]
    );
    assert_eq!(
        words(
            &TmuxCommand::DeleteBuffer {
                buffer: "b".to_owned()
            }
            .arguments()
        )[2..],
        ["delete-buffer", "-b", "b"]
    );
    assert_eq!(
        words(
            &TmuxCommand::ProbePane {
                pane: "%1".to_owned()
            }
            .arguments()
        )[2..],
        ["display-message", "-p", "-t", "%1", "#{session_name}|#{pane_dead}"]
    );
}

#[test]
fn answers_of_tmux_are_understood() {
    assert_eq!(session_id("other\t$1\nmine\t$2\n", "mine").unwrap(), "$2");
    assert_eq!(
        session_id("mine2\t$1\n", "mine").unwrap_err().text(),
        "tmux session mine no longer exists"
    );
    assert!(session_window_target("x\n", "s").is_err());
    assert!(session_window_target("", "s").is_err());
    assert_eq!(agent_pane("%1|s|0\n%2|s|0\n", "s").unwrap(), "%1");
    assert_eq!(
        agent_pane("", "s").unwrap_err().text(),
        "tmux session s has no agent pane"
    );
    assert!(agent_pane("%1|other|0\n", "s").is_err());
    assert!(agent_pane("1|s|0\n", "s").is_err());
    assert!(check_pane_id("%7").is_ok());
    assert_eq!(
        check_pane_id("7").unwrap_err().text(),
        "tmux pane target is invalid: 7"
    );
    assert!(pane_is_alive(&ended(true, "s|0\n", ""), "s", "%1").unwrap());
    assert!(!pane_is_alive(&ended(false, "", "no pane"), "s", "%1").unwrap());
    assert!(!pane_is_alive(&ended(true, "other|0\n", ""), "s", "%1").unwrap());
    assert_eq!(
        pane_is_alive(&ended(true, "s|0|0\n", ""), "s", "%1")
            .unwrap_err()
            .text(),
        "tmux pane %1 returned invalid liveness metadata"
    );
    assert_eq!(
        pane_is_alive(&ended(true, "s|2\n", ""), "s", "%1")
            .unwrap_err()
            .text(),
        "tmux pane %1 returned an invalid liveness value"
    );
    assert!(has_session(&ended(true, "", "")).unwrap());
    assert!(!has_session(&ended(false, "", "")).unwrap());
    let mut strange = ended(false, "", "server exited");
    strange.code = Some(2);
    assert_eq!(
        has_session(&strange).unwrap_err().text(),
        "tmux failed: server exited"
    );
}

#[test]
fn broken_sessions_are_given_up() {
    let agent = Agent {
        command: "echo".to_owned(),
        args: Vec::new(),
    };
    let task = create_session_with_pane("s", b"/w", &agent, &vec![prints("42\n")]);
    assert!(matches!(task, Task::Abandon(_)));
    let task = create_session_with_pane("s", b"/w", &agent, &vec![prints("%42\n"), fails("no")]);
    assert!(matches!(task, Task::Abandon(_)));
    let task = create_session_with_pane("s", b"/w", &agent, &vec![fails("duplicate session")]);
    assert_eq!(problem(task), "tmux failed: duplicate session");
}

#[test]
fn sessions_are_stopped_with_their_key_tables() {
    let (one, other) = session_key_tables("s");
    let gone = vec![fails("")];
    assert!(asked(kill_session("s", &gone)).contains(&one));
    let mut answers = vec![prints(""), prints("s\t$1\n"), fails("busy")];
    assert!(asked(kill_session("s", &answers)).contains(&one));
    answers.push(prints(""));
    assert!(asked(kill_session("s", &answers)).contains(&other));
    answers.push(fails("no table"));
    assert_eq!(
        problem(kill_session("s", &answers)),
        "tmux failed: busy; failed to clean up session key tables: tmux failed: no table"
    );
    assert_eq!(
        problem(kill_session("s", &vec![prints(""), prints("t\t$1\n")])),
        "tmux session s no longer exists"
    );
    assert!(asked(clear_key_tables("s", &vec![])).contains(&one));
}

#[test]
fn attaching_uses_the_identifier_of_the_session() {
    let answers = vec![prints("s\t$3\n")];
    let task = attach("s", &answers);
    assert!(matches!(task, Task::Join(_)));
    assert_eq!(asked(task)[2..], ["attach-session", "-t", "$3"]);
    assert!(problem(attach("t", &answers)).contains("no longer exists"));
}

#[test]
fn sessions_are_recognized_by_what_they_say_of_themselves() {
    let metadata = SessionMetadata {
        project_name: "p".to_owned(),
        worktree_name: "w".to_owned(),
        agent_name: "a".to_owned(),
    };
    let mut server = Server::new();
    server.create("s");
    server.configure("s", &metadata);
    server
        .perform(|answers| validate_session_metadata("s", &metadata, answers))
        .unwrap();

    for (project, worktree, agent) in [("q", "w", "a"), ("p", "", "a"), ("p", "w", " a")] {
        let other = SessionMetadata {
            project_name: project.to_owned(),
            worktree_name: worktree.to_owned(),
            agent_name: agent.to_owned(),
        };
        assert_eq!(
            server
                .perform(|answers| validate_session_metadata("s", &other, answers))
                .unwrap_err()
                .text(),
            "tmux session s metadata does not match"
        );
    }
    assert_eq!(
        server
            .perform(|answers| validate_session_metadata("t", &metadata, answers))
            .unwrap_err()
            .text(),
        "tmux session t no longer exists"
    );
}

#[test]
fn bindings_move_to_the_new_table() {
    let (one, _) = session_key_tables("s");
    let moved = bindings(
        "bind-key -T root C-a send-keys\nbind-key -r -T root Up select-pane -U\n",
        "root",
        &one,
    );
    assert!(moved.contains(&format!("bind-key -T {one} C-a send-keys\n")));
    assert!(moved.contains(&format!("-T {one} Up select-pane -U\n")));
    assert!(moved.contains("C-]"));
    assert!(!moved.contains("-T root "));
}

#[test]
fn successive_configurations_take_turns() {
    let mut server = Server::new();
    server.create("s");
    let (one, other) = session_key_tables("s");
    let untouched = server.tables.clone();

    server.key_table("s").unwrap();
    assert_eq!(server.option("s", "key-table"), one);
    let first = server.tables[&one].clone();
    server.key_table("s").unwrap();
    assert_eq!(server.option("s", "key-table"), other);

    let mut expected: Vec<String> = first
        .iter()
        .map(|line| line.replace(&one, &other))
        .collect();
    expected.push(format!("bind-key -T {other} C-] detach-client"));
    assert_eq!(server.tables.remove(&other).unwrap(), expected);
    assert_eq!(server.tables, untouched);
    assert!(server.files.is_empty() && server.directories.is_empty());
}

#[test]
fn options_are_shown_without_the_white_space_around_them() {
    let shown = |value: &str| {
        match show_option("s", "status", &vec![prints("s\t$1\n"), prints(value)]) {
            Task::Finish(Some(value)) => value,
            other => panic!("{other:?}"),
        }
    };
    assert_eq!(shown("on\n"), "on");
    assert_eq!(shown("  \n"), "");
}

#[test]
fn temporary_bindings_go_even_if_they_cannot_be_loaded() {
    let start = || {
        vec![
            prints("s\t$1\n"),
            prints("root\n"),
            prints("bind-key -T root C-a send-keys\n"),
            prints(""),
            Answer::Done,
            Answer::Done,
            Answer::Done,
        ]
    };
    let next = |answers: &Vec<Answer>| configure_key_table("s", b"/tmp", 7, answers);

    let mut answers = start();
    answers.push(fails("bad line"));
    assert!(matches!(next(&answers), KeyTask::RemoveFile(_)));
    answers.push(Answer::Done);
    assert!(matches!(next(&answers), KeyTask::RemoveDirectory(_)));
    answers.push(Answer::Failed(failure("busy")));
    let KeyTask::Fail(error) = next(&answers) else {
        panic!("no failure");
    };
    assert_eq!(
        error.text(),
        "tmux failed: bad line; failed to remove temporary tmux configuration (directory: busy)"
    );

    let mut uncreated = start();
    uncreated.truncate(5);
    uncreated.push(Answer::Failed(failure("full")));
    assert!(matches!(next(&uncreated), KeyTask::RemoveDirectory(_)));
}
