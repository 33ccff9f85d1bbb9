use david::arguments::{agent_arguments, parse_agent_arguments};
use david::config::{Agent, Config};
use david::direct::{
    is_state_file, optional_tmux, records_session, session_state_directories, DirectSessions,
};
use david::error::{command_error, IoFailure, ToolError};
use david::git::{
    branch_command_root, find_worktree, path_from, rebase_is_for,
    source_is_dirty, Candidate, Git, GitCommand,
};
use david::hex::{decode_path_hex, encode_path_hex};
use david::identity::{
    repository_id, repository_name, session_key_tables, session_name, slug, stable_hash,
    status_left_length,
};
use david::layout::{validate_worktree_name, DavidPaths, MissingWalk};
use david::listing::{
    list_table, managed_name, managed_worktrees, path_line, write_porcelain_list, FoundWorktree,
    ManagedWorktree, SessionStatus,
};
use david::migrate::{
    describe_move, next_migration_step, plan_migration, Item, Kind, MigrationStep,
};
use david::process::CommandOutput;
use david::selection::{
    direct_agent_is_resolvable, select_agent, with_arguments, TerminalAgentPicker,
    ConfigSketch, Selection,
};
use david::setup::{list_agents, unreadable_config, Question, SetupEvent};
use david::state::{read_session_state, valid_pane_id, SessionMetadata, SessionState};
use david::storage::{command_candidates, lock_path, temporary_config, temporary_state};
use david::worktree::{parse_worktree_list, parse_worktree_list_bytes, Worktree};

fn agent(command: &str, args: &[&str]) -> Agent {
    Agent {
        command: command.to_owned(),
        args: args.iter().map(|arg| arg.to_string()).collect(),
    }
}

fn config(agents: &[(&str, Agent)]) -> Config {
    let mut config = Config::default();
    for (name, agent) in agents {
        config.insert(name.to_string(), agent.clone());
    }
    config
}

fn state() -> SessionState {
    SessionState {
        repo_id: "repo".to_owned(),
        worktree_name: "feature".to_owned(),
        worktree_path: b"/tmp/feature".to_vec(),
        branch: "feature".to_owned(),
        session: "david-repo-feature".to_owned(),
        agent: "test".to_owned(),
        pane: Some("%42".to_owned()),
    }
}

fn assert_same_state(a: &SessionState, b: &SessionState) {
    assert_eq!(a.repo_id, b.repo_id);
    assert_eq!(a.worktree_name, b.worktree_name);
    assert_eq!(a.worktree_path, b.worktree_path);
    assert_eq!(a.branch, b.branch);
    assert_eq!(a.session, b.session);
    assert_eq!(a.agent, b.agent);
    assert_eq!(a.pane, b.pane);
}

#[test]
fn repository_ids_are_stable_and_distinguish_paths() {
    let first = b"/tmp/first/.git";
    let second = b"/tmp/second/.git";
    assert_eq!(repository_id(first), repository_id(first));
    assert_ne!(repository_id(first), repository_id(second));
    assert_eq!(
        repository_id(b"/a/my repo/.git"),
        format!("my-repo-{}", stable_hash("/a/my repo/.git"))
    );
    assert_eq!(
        repository_id(b"/srv/bare.git"),
        format!("bare-git-{}", stable_hash("/srv/bare.git"))
    );
    assert_eq!(repository_id(b"/"), format!("repo-{}", stable_hash("/")));
    assert!(repository_id(b"/a/\xff").starts_with("repo-"));
}

#[test]
fn uses_david_storage_namespace() {
    let paths = DavidPaths::from_home(b"/home/user");

    assert_eq!(paths.config_path(), b"/home/user/.david/config.toml");
}

#[test]
fn names_sessions_in_david_namespace() {
    assert!(session_name("repo", "worktree").starts_with("david-"));
}

#[test]
fn session_state_round_trips_pane_and_reads_legacy_state_without_it() {
    let path = b"/tmp/session.state";
    let state = state();

    let content = state.encode();
    assert!(content.contains("pane=%42\n"));
    assert_same_state(&read_session_state(&content, path).unwrap(), &state);

    let legacy = content
        .lines()
        .filter(|line| !line.starts_with("pane="))
        .collect::<Vec<_>>()
        .join("\n")
        + "\n";
    assert_eq!(read_session_state(&legacy, path).unwrap().pane, None);
}

#[test]
fn session_state_hex_encodes_paths_and_reads_legacy_paths() {
    let path = b"/tmp/session.state";
    let state = SessionState {
        worktree_path: b"/tmp/feature\nwith-newline-\xff".to_vec(),
        pane: None,
        ..state()
    };

    let encoded = state.encode();
    assert!(encoded.contains(
        "worktree_path_hex=2f746d702f666561747572650a776974682d6e65776c696e652dff\n"
    ));
    assert!(!encoded.contains("worktree_path=/tmp"));
    assert_same_state(&read_session_state(&encoded, path).unwrap(), &state);

    assert_eq!(
        read_session_state(
            "repo_id=repo\nworktree_name=feature\nworktree_path=/tmp/legacy\nbranch=feature\nsession=david-repo-feature\nagent=test\n",
            path
        )
        .unwrap()
        .worktree_path,
        b"/tmp/legacy"
    );
}

#[test]
fn rejects_nul_in_agent_configuration_and_session_state_values() {
    assert!(config(&[("bad\0name", agent("echo", &[]))])
        .validate()
        .is_err());
    assert!(config(&[("test", agent("ec\0ho", &[]))]).validate().is_err());
    assert_eq!(
        config(&[("test", agent("echo", &["bad\0arg"]))])
            .validate()
            .unwrap_err()
            .text(),
        "agent \"test\" arguments must not contain NUL bytes"
    );
    assert!(read_session_state(
        "repo_id=repo\nworktree_name=feature\nworktree_path=/tmp/feature\nbranch=feature\nsession=david-repo-feature\nagent=bad\0agent\n",
        b"/tmp/session.state"
    )
    .is_err());
}

#[test]
fn invalid_agent_argument_exits_with_a_controlled_configuration_error() {
    let error = config(&[("test", agent("echo", &["bad\u{0000}arg"]))])
        .validate()
        .unwrap_err();

    assert_eq!(error.exit_code(), 1);
    assert_eq!(
        format!("error: {}\n", error.text()).as_bytes(),
        b"error: agent \"test\" arguments must not contain NUL bytes\n"
    );
}

#[test]
fn parses_porcelain_worktree_output() {
    let worktrees = parse_worktree_list(
        "worktree /tmp/main\nHEAD abc\nbranch refs/heads/main\n\nworktree /tmp/feature\nHEAD def\nbranch refs/heads/feature\n",
    );
    assert_eq!(worktrees.len(), 2);
    assert_eq!(worktrees[0].branch.as_deref(), Some("main"));
    assert_eq!(worktrees[1].head, "def");
}

#[test]
fn parses_nul_porcelain_worktree_output_without_splitting_newline_paths() {
    let input = b"worktree /tmp/feature\nwith-newline\0HEAD def\0branch refs/heads/feature\0\0";

    let worktrees = parse_worktree_list_bytes(input);

    assert_eq!(worktrees.len(), 1);
    assert_eq!(worktrees[0].path, b"/tmp/feature\nwith-newline");
    assert_eq!(worktrees[0].branch.as_deref(), Some("feature"));
}

#[test]
fn worktree_lists_may_hold_detached_and_bare_worktrees() {
    let worktrees = parse_worktree_list_bytes(
        b"HEAD stray\0worktree /srv/bare\0bare\0\0worktree /tmp/\xff\0HEAD abc\0detached\0\0worktree /tmp/b\0HEAD def\0branch refs/remotes/x\0",
    );
    assert_eq!(worktrees.len(), 3);
    assert_eq!(worktrees[0].path, b"/srv/bare");
    assert_eq!(worktrees[0].head, "");
    assert_eq!(worktrees[1].path, b"/tmp/\xff");
    assert_eq!(worktrees[1].head, "abc");
    assert_eq!(worktrees[1].branch, None);
    assert_eq!(worktrees[2].branch.as_deref(), Some("refs/remotes/x"));
    assert!(parse_worktree_list_bytes(b"").is_empty());
    assert!(parse_worktree_list("").is_empty());
}

#[test]
fn notes_on_worktrees_are_passed_over() {
    let worktrees = parse_worktree_list_bytes(
        b"worktree /srv/bare\0bare\0\0worktree /tmp/a\0HEAD abc\0branch refs/heads/a\0locked on a\ndisk\0prunable gone\0\0worktree /tmp/b\0branch refs/heads/b\0locked\0\0",
    );
    assert_eq!(
        described(&worktrees),
        [
            (b"/srv/bare".to_vec(), String::new(), None),
            (b"/tmp/a".to_vec(), "abc".to_owned(), Some("a".to_owned())),
            (b"/tmp/b".to_vec(), String::new(), Some("b".to_owned())),
        ]
    );
}

fn described(worktrees: &[Worktree]) -> Vec<(Vec<u8>, String, Option<String>)> {
    worktrees
        .iter()
        .map(|worktree| {
            let path = worktree.path.clone();
            (path, worktree.head.clone(), worktree.branch.clone())
        })
        .collect()
}

#[test]
fn worktree_lists_are_read_part_by_part() {
    let first = "worktree /tmp/a\nHEAD abc\nbranch refs/heads/a";
    let second = "worktree /tmp/b\nHEAD def\ndetached\n";
    for first in [first.to_owned(), format!("{first}\n"), String::new()] {
        let mut parts = described(&parse_worktree_list(&first));
        parts.extend(described(&parse_worktree_list(second)));
        let whole = described(&parse_worktree_list(&format!("{first}\n\n{second}")));
        assert_eq!(whole, parts);
    }
    assert_eq!(
        described(&parse_worktree_list(&format!("{first}\n\n{second}"))),
        [
            (b"/tmp/a".to_vec(), "abc".to_owned(), Some("a".to_owned())),
            (b"/tmp/b".to_vec(), "def".to_owned(), None),
        ]
    );
}

#[test]
fn both_forms_of_a_worktree_list_say_the_same() {
    for list in [
        "",
        "\n",
        "worktree /tmp/\u{e9}\nHEAD abc\nbranch refs/heads/\u{e9}",
        "worktree /tmp/a\rb\nHEAD abc\r",
        "HEAD stray\nworktree /tmp/a\nHEAD abc\nbranch x\n\nworktree /tmp/b\nbare\n\n",
    ] {
        assert_eq!(
            described(&parse_worktree_list_bytes(list.replace('\n', "\0").as_bytes())),
            described(&parse_worktree_list(list))
        );
    }
}

#[test]
fn exactly_the_contained_worktrees_are_listed() {
    let found = [
        ("/base/b", true),
        ("/src", true),
        ("/base/gone", false),
        ("/base/a", true),
    ]
    .iter()
    .map(|(path, contained)| FoundWorktree {
        worktree: Worktree {
            path: path.as_bytes().to_vec(),
            head: "abc".to_owned(),
            branch: Some("main".to_owned()),
        },
        contained: *contained,
    })
    .collect();
    let listed: Vec<(String, Vec<u8>)> = managed_worktrees(b"/base", &found)
        .into_iter()
        .map(|entry| (entry.name, entry.worktree.path))
        .collect();
    assert_eq!(
        listed,
        [
            ("b".to_owned(), b"/base/b".to_vec()),
            ("a".to_owned(), b"/base/a".to_vec()),
        ]
    );
}

fn two_entries() -> Vec<ManagedWorktree> {
    vec![
        ManagedWorktree {
            name: "first".to_owned(),
            branch: "main".to_owned(),
            agent: "codex".to_owned(),
            session: SessionStatus::Active,
            path: b"/tmp/first".to_vec(),
        },
        ManagedWorktree {
            name: "second".to_owned(),
            branch: "(detached)".to_owned(),
            agent: "-".to_owned(),
            session: SessionStatus::Unknown,
            path: b"/tmp/second\nwith-newline".to_vec(),
        },
    ]
}

#[test]
fn porcelain_formatter_uses_exact_newline_and_nul_record_delimiters() {
    let entries = two_entries();

    let newline = write_porcelain_list(&entries, false);
    assert_eq!(
        String::from_utf8(newline).unwrap(),
        "name first\nbranch main\nagent codex\nsession active\npath /tmp/first\n\nname second\nbranch (detached)\nagent -\nsession unknown\npath /tmp/second\nwith-newline\n"
    );

    let nul = write_porcelain_list(&entries, true);
    assert_eq!(
        nul,
        b"name first\0branch main\0agent codex\0session active\0path /tmp/first\0\0name second\0branch (detached)\0agent -\0session unknown\0path /tmp/second\nwith-newline\0"
    );

    let empty = write_porcelain_list(&vec![], false);
    assert!(empty.is_empty());
}

#[test]
fn list_human_bytes_and_empty_porcelain_output_are_stable() {
    assert_eq!(list_table(&vec![]).as_bytes(), b"No managed worktrees.\n");
    assert!(write_porcelain_list(&vec![], false).is_empty());
    assert!(write_porcelain_list(&vec![], true).is_empty());
    assert_eq!(
        list_table(&two_entries()),
        "NAME\tBRANCH\tAGENT\tPATH\nfirst\tmain\tcodex\t/tmp/first\nsecond\t(detached)\t-\t/tmp/second\nwith-newline\n"
    );
}

#[test]
fn path_lines_end_with_a_line_break_or_nul() {
    assert_eq!(path_line(b"/tmp/\xff", false), b"/tmp/\xff\n");
    assert_eq!(path_line(b"/tmp/a", true), b"/tmp/a\0");
}

#[test]
fn managed_names_are_relative_to_the_repository() {
    assert_eq!(
        managed_name(b"/data/repo", b"/data/repo/feature/login").as_deref(),
        Some("feature/login")
    );
    assert_eq!(managed_name(b"/data/repo", b"/data/repo"), None);
    assert_eq!(managed_name(b"/data/repo", b"/data/repository"), None);
    assert_eq!(
        managed_name(b"/data/repo", b"/data/repo/a\xff").as_deref(),
        Some("a\u{fffd}")
    );
    let detached = Worktree {
        path: b"/data/repo/x".to_vec(),
        head: "abc".to_owned(),
        branch: None,
    };
    let entry = ManagedWorktree::new(
        "x".to_owned(),
        &detached,
        "-".to_owned(),
        SessionStatus::Inactive,
    );
    assert_eq!(entry.branch, "(detached)");
    assert_eq!(entry.session.as_str(), "inactive");
}

#[test]
fn rejects_worktree_path_escape() {
    assert!(validate_worktree_name("../escape").is_err());
    assert!(validate_worktree_name("/absolute").is_err());
    assert!(validate_worktree_name("feature/login").is_ok());
}

#[test]
fn rejects_unusable_worktree_names() {
    for name in ["", "  ", "-x", "a\0b"] {
        assert_eq!(
            validate_worktree_name(name).unwrap_err().text(),
            "worktree name must be a non-empty value that does not start with '-'"
        );
    }
    assert_eq!(
        validate_worktree_name("a/../b").unwrap_err().text(),
        "worktree name must not escape the managed directory"
    );
    assert!(validate_worktree_name("a/./b").is_ok());
    assert!(validate_worktree_name("..a").is_ok());
}

#[test]
fn parses_quoted_agent_arguments() {
    assert_eq!(
        parse_agent_arguments("--model gpt-5 --prompt 'hello world'").unwrap(),
        vec!["--model", "gpt-5", "--prompt", "hello world"]
    );
}

#[test]
fn plain_arguments_are_split_at_blanks() {
    assert_eq!(
        parse_agent_arguments("  --model\tgpt-5\n x=y ").unwrap(),
        vec!["--model", "gpt-5", "x=y"]
    );
    assert!(parse_agent_arguments("").unwrap().is_empty());
    assert_eq!(
        parse_agent_arguments("'open").unwrap_err().text(),
        "could not parse agent arguments: missing closing quote"
    );
    assert_eq!(
        agent_arguments(Ok(vec!["a".to_owned()])).unwrap(),
        vec!["a"]
    );
    assert_eq!(
        agent_arguments(Err(shell_words::ParseError))
            .unwrap_err()
            .text(),
        "could not parse agent arguments: missing closing quote"
    );
}

#[test]
fn setup_merges_agents_and_scaffolds_config() {
    let paths = DavidPaths::from_home(b"/home/user");
    let existing = config(&[
        ("keep", agent("keep", &[])),
        ("existing", agent("old", &["old"])),
    ]);

    let mut setup = paths.setup(existing);
    for (name, command, args) in [("existing", "new", "value"), ("added", "added", "")] {
        assert_eq!(setup.question, Question::Name);
        assert!(matches!(setup.answer(name), SetupEvent::Ask));
        assert_eq!(setup.question, Question::Command);
        assert!(matches!(setup.answer(command), SetupEvent::Ask));
        assert_eq!(setup.question, Question::Arguments);
        assert!(matches!(setup.answer(args), SetupEvent::Added));
    }
    assert!(matches!(setup.answer(" "), SetupEvent::Finished));

    assert_eq!(
        setup.complete().unwrap(),
        "Agent configuration written to /home/user/.david/config.toml"
    );
    assert_eq!(setup.config.agents.len(), 3);
    assert_eq!(setup.config.get("keep").unwrap().command, "keep");
    assert_eq!(setup.config.get("existing").unwrap().command, "new");
    assert_eq!(setup.config.get("existing").unwrap().args, vec!["value"]);
    assert_eq!(setup.config.get("added").unwrap().command, "added");
}

#[test]
fn setup_rejects_empty_result_without_writing_config() {
    let paths = DavidPaths::from_home(b"/home/user");
    let mut setup = paths.setup(Config::default());

    assert!(matches!(setup.answer(""), SetupEvent::Finished));
    let error = setup.complete().unwrap_err();

    assert!(error.text().contains("at least one agent"));
}

#[test]
fn setup_keeps_the_default_and_asks_again_for_bad_arguments() {
    let paths = DavidPaths::from_home(b"/home/user");
    let mut existing = config(&[("codex", agent("codex", &[]))]);
    existing.default_agent = Some("codex".to_owned());
    let mut setup = paths.setup(existing);

    setup.answer(" other ");
    setup.answer(" other-agent ");
    assert!(matches!(
        setup.answer("'open"),
        SetupEvent::Retry(error) if error.text().contains("missing closing quote")
    ));
    assert!(matches!(setup.answer("--fast"), SetupEvent::Added));
    assert_eq!(setup.config.default_agent.as_deref(), Some("codex"));
    assert_eq!(setup.config.get("other").unwrap().command, "other-agent");

    setup.answer("bad");
    setup.answer("");
    assert!(matches!(
        setup.answer(""),
        SetupEvent::Failed(error)
            if error.text() == "agent \"bad\" must define a non-empty single-line command"
    ));
    assert_eq!(setup.config.agents.len(), 2);
    assert_eq!(setup.question, Question::Arguments);
    assert_eq!(Question::Name.prompt(), "Agent name (Enter to finish)");
    assert!(Question::Arguments.allow_empty());
    assert!(!Question::Command.allow_empty());
}

#[test]
fn configured_agents_are_listed() {
    assert_eq!(
        list_agents(&Config::default()),
        "\nConfigured agents:\n  (none)\n"
    );
    assert_eq!(
        list_agents(&config(&[
            ("codex", agent("codex", &["--profile", "a \"b\""])),
            ("alpha", agent("alpha", &[])),
        ])),
        "\nConfigured agents:\n  alpha: alpha []\n  codex: codex [\"--profile\", \"a \\\"b\\\"\"]\n"
    );
}

#[test]
fn unreadable_configurations_are_reported() {
    let missing = unreadable_config(
        b"/home/user/config.toml",
        IoFailure {
            not_found: true,
            detail: "gone".to_owned(),
        },
    );
    assert_eq!(
        missing.text(),
        "agent configuration not found at /home/user/config.toml; add an [agents.<name>] entry"
    );
    let denied = unreadable_config(
        b"/home/user/config.toml",
        IoFailure {
            not_found: false,
            detail: "denied".to_owned(),
        },
    );
    assert_eq!(denied.text(), "I/O error: denied");
}

#[test]
fn default_agent_has_to_be_configured() {
    let mut config = config(&[("codex", agent("codex", &[]))]);
    config.default_agent = Some("other".to_owned());
    assert_eq!(
        config.validate().unwrap_err().text(),
        "default_agent \"other\" is not a configured agent"
    );
    config.default_agent = Some("codex".to_owned());
    assert!(config.validate().is_ok());
    assert_eq!(
        Config::default().validate().unwrap_err().text(),
        "agent configuration must contain at least one agent"
    );
}

fn text(value: &str) -> Option<String> {
    Some(value.to_owned())
}

fn chosen(selection: Selection) -> String {
    match selection {
        Selection::Chosen(entry) => entry.name,
        other => panic!("nothing chosen: {other:?}"),
    }
}

#[test]
fn agents_are_selected_in_order_of_precedence() {
    let mut two = config(&[("codex", agent("codex", &[])), ("other", agent("o", &[]))]);
    assert_eq!(
        chosen(select_agent(&two, &text("codex"), &text("other"), false)),
        "codex"
    );
    assert_eq!(
        chosen(select_agent(&two, &None, &text("other"), false)),
        "other"
    );
    assert!(matches!(
        select_agent(&two, &None, &None, true),
        Selection::Pick
    ));
    assert!(matches!(
        select_agent(&two, &None, &text(""), false),
        Selection::Unavailable
    ));
    assert!(matches!(
        select_agent(&two, &text("missing"), &None, true),
        Selection::Unknown(name) if name == "missing"
    ));
    two.default_agent = text("other");
    assert_eq!(chosen(select_agent(&two, &None, &None, false)), "other");

    let one = config(&[("codex", agent("codex", &[]))]);
    assert_eq!(chosen(select_agent(&one, &None, &None, false)), "codex");
    assert!(matches!(
        select_agent(&Config::default(), &None, &None, false),
        Selection::Unavailable
    ));
}

#[test]
fn agents_are_offered_by_name_and_command() {
    let config = config(&[("b", agent("two", &[])), ("a", agent("one", &["x"]))]);
    let picker = TerminalAgentPicker;
    assert_eq!(picker.labels(&config), ["a (one)", "b (two)"]);
    assert_eq!(picker.picked(&config, 0).unwrap().name, "a");
    assert_eq!(picker.picked(&config, 1).unwrap().agent.command, "two");
    assert!(picker.picked(&config, 2).is_none());
    let launched = with_arguments(&agent("one", &["x"]), &vec!["--model".to_owned()]);
    assert_eq!(launched.args, ["x", "--model"]);
}

#[test]
fn direct_agents_are_resolvable_without_a_person() {
    let present = |has_default, agents| ConfigSketch::Present {
        has_default,
        agents,
    };
    assert!(direct_agent_is_resolvable(true, &None, present(false, 2)));
    assert!(direct_agent_is_resolvable(
        false,
        &text("codex"),
        present(false, 2)
    ));
    assert!(!direct_agent_is_resolvable(
        false,
        &text(""),
        present(false, 2)
    ));
    assert!(direct_agent_is_resolvable(false, &None, present(true, 2)));
    assert!(direct_agent_is_resolvable(false, &None, present(false, 1)));
    assert!(direct_agent_is_resolvable(
        false,
        &None,
        ConfigSketch::Missing
    ));
    assert!(direct_agent_is_resolvable(
        false,
        &None,
        ConfigSketch::Malformed
    ));
}

#[test]
fn session_state_problems_are_told_apart() {
    let path = b"/s/x.state";
    let good = "repo_id=r\nworktree_name=w\nworktree_path=/p\nbranch=w\nsession=s\nagent=a\n";
    let problem = |content: &str| read_session_state(content, path).unwrap_err().text();
    assert!(read_session_state(good, path).is_ok());
    assert_eq!(problem("nonsense\n"), "invalid session metadata: /s/x.state");
    assert_eq!(
        problem("color=red\n"),
        "session metadata contains unknown field color: /s/x.state"
    );
    assert_eq!(
        problem("agent=a\nagent=b\n"),
        "session metadata contains duplicate field agent: /s/x.state"
    );
    assert_eq!(
        problem("repo_id=r\n"),
        "session metadata is missing agent: /s/x.state"
    );
    assert_eq!(
        problem("agent= \n"),
        "session metadata has an invalid agent: /s/x.state"
    );
    assert_eq!(
        problem("agent=a\nworktree_path=/p\nworktree_path_hex=2f\n"),
        "session metadata contains duplicate worktree path fields: /s/x.state"
    );
    assert_eq!(
        problem("agent=a\nworktree_path_hex=2\n"),
        "session metadata has an invalid worktree path: /s/x.state"
    );
    assert_eq!(
        problem("agent=a\n"),
        "session metadata is missing worktree_path: /s/x.state"
    );
    assert_eq!(
        problem(&format!("{good}pane=42\n")),
        "session metadata has an invalid pane: /s/x.state"
    );
    assert_eq!(
        problem("agent=a\nworktree_path=/p\nworktree_name=w\nbranch=w\nsession=s\n"),
        "session metadata is missing repo_id: /s/x.state"
    );
    assert!(state().matches(
        "repo",
        "feature",
        "david-repo-feature",
        b"/x//y",
        b"/x/y/"
    ));
    assert!(!state().matches("repo", "other", "david-repo-feature", b"/x", b"/x"));
    assert!(valid_pane_id("%0") && !valid_pane_id("%") && !valid_pane_id("0%1"));
}

#[test]
fn paths_are_written_in_hexadecimal() {
    assert_eq!(encode_path_hex(b"/\xff"), "2fff");
    assert_eq!(decode_path_hex("2fFf").unwrap(), b"/\xff");
    assert_eq!(decode_path_hex("2"), None);
    assert_eq!(decode_path_hex("zz"), None);
    assert_eq!(decode_path_hex("").unwrap(), b"");
}

#[test]
fn hashes_and_slugs_are_stable() {
    assert_eq!(stable_hash(""), "cbf29ce484222325");
    assert_eq!(stable_hash("a"), "af63dc4c8601ec8c");
    assert_eq!(slug("my repo.git_2-x"), "my-repo-git_2-x");
    assert_eq!(session_name("repo", "a"), "david-repo-af63dc4c8601ec8c");
    let (first, second) = session_key_tables("a");
    assert_eq!(first, "david-keys-af63dc4c8601ec8c-a");
    assert_eq!(second, "david-keys-af63dc4c8601ec8c-b");
    let metadata = SessionMetadata {
        project_name: "abc".to_owned(),
        worktree_name: "de".to_owned(),
        agent_name: "ü".to_owned(),
    };
    assert_eq!(status_left_length(&metadata), "46");
}

#[test]
fn projects_are_named_after_their_main_checkout() {
    assert_eq!(
        repository_name(b"/src/project/.git", &None, b"/elsewhere").unwrap(),
        "project"
    );
    assert_eq!(
        repository_name(b"/srv/store", &Some(b"/src/main".to_vec()), b"/elsewhere").unwrap(),
        "main"
    );
    assert_eq!(
        repository_name(b"/srv/store", &None, b"/elsewhere").unwrap(),
        "elsewhere"
    );
    assert_eq!(
        repository_name(b"/.git", &None, b"/elsewhere")
            .unwrap_err()
            .text(),
        "could not determine project name from source directory: /"
    );
}

#[test]
fn base_directories_are_used_only_if_absolute() {
    let some = |value: &[u8]| Some(value.to_vec());
    let paths = DavidPaths::from_base_directories(
        b"/home/u",
        &some(b"/xdg/config"),
        &some(b"relative"),
        &None,
    );
    assert_eq!(paths.config, b"/xdg/config/david/config.toml");
    assert_eq!(paths.worktrees, b"/home/u/.local/share/david/worktrees");
    assert_eq!(paths.sessions, b"/home/u/.local/state/david/sessions");

    let home = some(b"/home/u");
    let legacy = DavidPaths::from_env(&home, &None, &None, &None, false, true).unwrap();
    assert_eq!(legacy.worktrees, b"/home/u/.david/worktrees");
    assert!(DavidPaths::is_legacy(false, true) && !DavidPaths::is_legacy(true, true));
    let used = DavidPaths::from_env(&home, &None, &None, &None, true, true).unwrap();
    assert_eq!(used.worktrees, b"/home/u/.local/share/david/worktrees");
    let fresh = DavidPaths::from_env(&home, &None, &None, &None, false, false).unwrap();
    assert_eq!(fresh.config, b"/home/u/.config/david/config.toml");
    assert_eq!(
        DavidPaths::from_env(&None, &None, &None, &None, false, false)
            .unwrap_err()
            .text(),
        "HOME is not set"
    );
}

#[test]
fn worktree_paths_have_to_stay_inside() {
    let paths = DavidPaths::from_home(b"/h");
    assert_eq!(
        paths.worktree_path("repo", "a/b"),
        b"/h/.david/worktrees/repo/a/b"
    );
    assert_eq!(
        paths.session_state_path("repo", "a"),
        b"/h/.david/sessions/repo-af63dc4c8601ec8c.state"
    );
    let some = |value: &[u8]| Some(value.to_vec());
    let check = |base, target| {
        DavidPaths::validate_worktree_path("a", b"/h/w", &base, &target)
            .map_err(|error| error.text())
    };
    assert!(check(some(b"/h/w/repo"), some(b"/h/w/repo/a")).is_ok());
    for (base, target) in [
        (some(b"/outside"), some(b"/outside/a")),
        (some(b"/h/w/repo"), some(b"/outside/a")),
        (None, some(b"/h/w/repo/a")),
        (some(b"/h/w/repo"), None),
    ] {
        assert_eq!(
            check(base, target).unwrap_err(),
            "managed worktree path escapes the managed directory: a"
        );
    }
}

#[test]
fn missing_directories_are_joined_back() {
    let mut walk = MissingWalk::new(b"/a/b/c");
    assert!(walk.not_found());
    assert!(walk.not_found());
    assert_eq!(walk.current, b"/a");
    assert_eq!(walk.resolved(b"/real"), b"/real/b/c");

    let mut relative = MissingWalk::new(b"x");
    assert!(relative.not_found());
    assert_eq!(relative.current, b".");
    assert!(!relative.not_found());
    assert_eq!(relative.resolved(b"/cwd"), b"/cwd/x");
}

fn candidate(path: &[u8], resolved: &[u8], branch: &str, is_directory: bool) -> Candidate {
    Candidate {
        worktree: Worktree {
            path: path.to_vec(),
            head: "abc".to_owned(),
            branch: Some(branch.to_owned()),
        },
        resolved: resolved.to_vec(),
        is_directory,
    }
}

#[test]
fn worktrees_are_found_by_path_or_by_what_it_resolves_to() {
    let list = vec![
        candidate(b"/main", b"/main", "main", true),
        candidate(b"/link/a", b"/real/a", "a", true),
    ];
    let found = find_worktree(&list, &Some(b"/real/a".to_vec()), b"/other").unwrap();
    assert_eq!(found.branch.as_deref(), Some("a"));
    assert!(find_worktree(&list, &None, b"/link/a/").is_some());
    assert!(find_worktree(&list, &None, b"/real/a").is_none());
}

#[test]
fn branches_are_deleted_from_another_worktree() {
    let list = vec![
        candidate(b"/gone", b"/gone", "gone", false),
        candidate(b"/w/a", b"/w/a", "a", true),
        candidate(b"/main", b"/main", "main", true),
    ];
    assert_eq!(
        branch_command_root(b"/here", b"/here", b"/w/a", &list).unwrap(),
        b"/here"
    );
    assert_eq!(
        branch_command_root(b"/w/a", b"/w/a", b"/w/a", &list).unwrap(),
        b"/main"
    );
    assert_eq!(
        branch_command_root(b"/w/a", b"/w/a", b"/w/a", &vec![])
            .unwrap_err()
            .text(),
        "cannot remove the current worktree without another worktree to operate from"
    );
}

fn words(list: &[Vec<u8>]) -> Vec<String> {
    list.iter()
        .map(|word| String::from_utf8(word.clone()).unwrap())
        .collect()
}

#[test]
fn git_is_asked_with_exact_arguments() {
    let git = Git::default();
    let run = |command: GitCommand| {
        let invocation = git.command(b"/repo", &command);
        assert_eq!(invocation.program, b"git");
        assert_eq!(invocation.directory, Some(b"/repo".to_vec()));
        words(&invocation.arguments)
    };
    assert_eq!(run(GitCommand::Root), ["rev-parse", "--show-toplevel"]);
    assert_eq!(
        run(GitCommand::CommonDirectory),
        ["rev-parse", "--git-common-dir"]
    );
    assert_eq!(run(GitCommand::Head), ["rev-parse", "--verify", "HEAD"]);
    assert_eq!(
        run(GitCommand::Status),
        ["status", "--porcelain=v1", "--untracked-files=all"]
    );
    assert_eq!(
        run(GitCommand::CheckBranch("a".to_owned())),
        ["check-ref-format", "--branch", "a"]
    );
    assert_eq!(
        run(GitCommand::Worktrees),
        ["worktree", "list", "--porcelain", "-z"]
    );
    assert_eq!(
        run(GitCommand::AddWorktree {
            name: "a".to_owned(),
            path: b"/w/a".to_vec()
        }),
        ["worktree", "add", "-b", "a", "/w/a", "HEAD"]
    );
    assert_eq!(
        run(GitCommand::RemoveWorktree {
            path: b"/w/a".to_vec(),
            force: false
        }),
        ["worktree", "remove", "/w/a"]
    );
    assert_eq!(
        run(GitCommand::RemoveWorktree {
            path: b"/w/a".to_vec(),
            force: true
        }),
        ["worktree", "remove", "--force", "/w/a"]
    );
    assert_eq!(
        run(GitCommand::DeleteBranch {
            name: "a".to_owned(),
            head: "abc".to_owned()
        }),
        ["update-ref", "-d", "refs/heads/a", "abc"]
    );
    assert_eq!(
        run(GitCommand::RebaseNote { apply: false }),
        ["rev-parse", "--git-path", "rebase-merge/head-name"]
    );
    assert_eq!(
        run(GitCommand::RebaseNote { apply: true }),
        ["rev-parse", "--git-path", "rebase-apply/head-name"]
    );
    assert_eq!(run(GitCommand::Repair), ["worktree", "repair"]);
}

#[test]
fn git_answers_are_understood() {
    assert_eq!(Git::repository_root(b"/repo with space\n"), b"/repo with space");
    assert_eq!(path_from(b"/repo", b".git\n"), b"/repo/.git");
    assert_eq!(path_from(b"/repo", b"/other/.git\n"), b"/other/.git");
    assert!(source_is_dirty(b" M file\n"));
    assert!(!source_is_dirty(b""));
    assert!(rebase_is_for("refs/heads/feature\n", "feature"));
    assert!(!rebase_is_for("refs/heads/other\n", "feature"));
    assert!(!rebase_is_for("feature\n", "feature"));
    let failed = CommandOutput {
        success: false,
        code: Some(128),
        status: "exit status: 128".to_owned(),
        stdout: b"".to_vec(),
        stderr: b"fatal: no\n".to_vec(),
    };
    assert_eq!(Git::output(failed).unwrap_err().text(), "git failed: fatal: no");
}

#[test]
fn failures_are_told_with_what_the_program_said() {
    let error = |stdout: &[u8], stderr: &[u8]| {
        command_error("git", stdout, stderr, "exit status: 1").text()
    };
    assert_eq!(error(b"out\n", b"err\n"), "git failed: err");
    assert_eq!(error(b"out\n", b" \n"), "git failed: out");
    assert_eq!(
        error(b"", b""),
        "git failed: exited with status exit status: 1"
    );
    assert_eq!(error(b"", b"\xff"), "git failed: \u{fffd}");
    assert_eq!(ToolError::AgentSelectionUnavailable.exit_code(), 2);
    assert!(ToolError::AgentSelectionUnavailable
        .text()
        .contains("non-interactive"));
    assert_eq!(
        ToolError::ConfigParse("x".to_owned()).text(),
        "configuration parse error: x"
    );
    assert_eq!(
        ToolError::ConfigSerialize("x".to_owned()).text(),
        "configuration serialization error: x"
    );
}

#[test]
fn direct_sessions_live_and_end_in_the_process() {
    let metadata = |agent: &str| SessionMetadata {
        project_name: "p".to_owned(),
        worktree_name: "w".to_owned(),
        agent_name: agent.to_owned(),
    };
    let mut sessions = DirectSessions::new();
    assert!(!sessions.is_direct("s"));
    sessions.create_session("s", b"/w");
    assert!(sessions.is_direct("s"));
    assert_eq!(
        sessions
            .validate_session_metadata("s", &metadata("a"))
            .unwrap_err()
            .text(),
        "direct session s metadata does not match"
    );
    sessions.configure_session("s", &metadata("a")).unwrap();
    assert!(sessions
        .validate_session_metadata("s", &metadata("a"))
        .is_ok());
    assert!(sessions
        .validate_session_metadata("s", &metadata("b"))
        .is_err());
    assert!(sessions.reserve_agent_start("s").unwrap());
    assert!(!sessions.reserve_agent_start("s").unwrap());
    assert!(sessions
        .validate_session_metadata("s", &metadata("a"))
        .is_ok());
    assert_eq!(
        sessions.attach_with_agent("s", "%1").unwrap_err().text(),
        "direct session s has an invalid pane target"
    );
    assert_eq!(sessions.attach_with_agent("s", "%0").unwrap(), b"/w");
    assert_eq!(
        sessions.attach_with_agent("s", "%0").unwrap_err().text(),
        "direct session s no longer exists"
    );
    assert!(sessions.configure_session("s", &metadata("a")).is_err());
    assert!(sessions.reserve_agent_start("s").is_err());
    assert_eq!(sessions.remove("s"), None);
    sessions.create_session("a", b"/a");
    sessions.create_session("b", b"/b");
    sessions.create_session("a", b"/c");
    assert_eq!(sessions.remove("a"), Some(b"/c".to_vec()));
    assert!(sessions.is_direct("b") && !sessions.is_direct("a"));
}

#[test]
fn tmux_is_optional_only_where_it_is_missing() {
    let io = |not_found| -> Result<bool, ToolError> {
        Err(ToolError::Io(IoFailure {
            not_found,
            detail: "x".to_owned(),
        }))
    };
    assert!(matches!(optional_tmux(io(true), false), Ok(false)));
    assert!(optional_tmux(io(false), false).is_err());
    assert!(matches!(optional_tmux(Ok(true), false), Ok(true)));
}

#[test]
fn session_records_are_looked_for_in_all_places() {
    let some = |value: &[u8]| Some(value.to_vec());
    assert_eq!(
        session_state_directories(&some(b"/state"), &some(b"/home/u")),
        [
            b"/home/u/.david/sessions".to_vec(),
            b"/state/david/sessions".to_vec()
        ]
    );
    assert_eq!(
        session_state_directories(&some(b"relative"), &some(b"/home/u")),
        [
            b"/home/u/.david/sessions".to_vec(),
            b"/home/u/.local/state/david/sessions".to_vec()
        ]
    );
    assert_eq!(
        session_state_directories(&some(b"/state"), &None),
        [b"/state/david/sessions".to_vec()]
    );
    assert!(session_state_directories(&None, &None).is_empty());
    assert!(is_state_file(b"/s/repo-1.state"));
    assert!(!is_state_file(b"/s/.state"));
    assert!(!is_state_file(b"/s/repo.state.tmp"));
    assert!(records_session("agent=a\nsession=s\n", "s"));
    assert!(!records_session("agent=a\nsession=st\n", "s"));
}

#[test]
fn temporary_files_lie_beside_their_place() {
    assert_eq!(
        temporary_config(b"/c/config.toml", 7),
        b"/c/.config.toml.tmp-7"
    );
    assert_eq!(temporary_state(b"/s/\xff.state", 12), b"/s/.state.tmp-12");
    assert_eq!(
        lock_path(b"/repo/.git", "a"),
        b"/repo/.git/david-af63dc4c8601ec8c.lock"
    );
}

#[test]
fn commands_are_looked_up_like_in_a_shell() {
    let path = Some(b"/bin:/usr/bin".to_vec());
    assert_eq!(
        command_candidates("codex", &path),
        [b"/bin/codex".to_vec(), b"/usr/bin/codex".to_vec()]
    );
    assert_eq!(
        command_candidates("/opt/codex", &path),
        [b"/opt/codex".to_vec()]
    );
    assert_eq!(
        command_candidates("./codex", &path),
        [b"./codex".to_vec()]
    );
    assert!(command_candidates("codex", &None).is_empty());
}

#[test]
fn migrations_move_everything_or_nothing() {
    let legacy = DavidPaths::from_home(b"/h");
    let paths = DavidPaths::from_base_directories(b"/h", &None, &None, &None);
    let item = |kind, name: &[u8], taken| Item {
        kind,
        name: name.to_vec(),
        taken,
    };
    let moves = plan_migration(
        &legacy,
        &paths,
        &vec![
            item(Kind::Config, b"", false),
            item(Kind::Repository, b"repo", false),
            item(Kind::Session, b"a.state", false),
        ],
    )
    .unwrap();
    assert_eq!(
        describe_move(&moves[0], true),
        "would move /h/.david/config.toml to /h/.config/david/config.toml\n"
    );
    assert_eq!(
        describe_move(&moves[1], false),
        "moved /h/.david/worktrees/repo to /h/.local/share/david/worktrees/repo\n"
    );
    assert_eq!(moves[2].to, b"/h/.local/state/david/sessions/a.state");

    let conflict = plan_migration(
        &legacy,
        &paths,
        &vec![
            item(Kind::Config, b"", false),
            item(Kind::Repository, b"repo", true),
        ],
    );
    assert_eq!(
        conflict.unwrap_err().text(),
        "migration would overwrite /h/.local/share/david/worktrees/repo; resolve the conflict and retry"
    );

    assert_eq!(
        next_migration_step(2, 1, false, false),
        MigrationStep::Move(1)
    );
    assert_eq!(
        next_migration_step(2, 2, false, false),
        MigrationStep::RemoveEmpty
    );
    assert_eq!(
        next_migration_step(2, 1, true, false),
        MigrationStep::Stop
    );
    assert_eq!(next_migration_step(2, 0, false, true), MigrationStep::Stop);
}

#[test]
fn worktrees_of_all_repositories_lie_below_one_directory() {
    let paths = DavidPaths::from_base_directories(b"/home/u", &None, &None, &None);
    for common in [b"/a b/.git".as_slice(), b"/", b"/x/\xff/.git", b"/srv/../y.git"] {
        let id = repository_id(common);
        assert!(!id.contains('/'));
        let path = paths.worktree_path(&id, "feature/login");
        assert!(path.starts_with(b"/home/u/.local/share/david/worktrees/"));
        assert!(path.ends_with(b"/feature/login"));
    }
}
