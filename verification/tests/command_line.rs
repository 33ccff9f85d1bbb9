use david::cli::{Cli, CliError, Command};
use david::dispatch::{plan_run, terminal_interaction_allowed, worktree_completions, Backend};

#[test]
fn remove_cli_accepts_force_before_or_after_name() {
    for arguments in [
        ["david", "remove", "feature-login", "--force"],
        ["david", "remove", "--force", "feature-login"],
    ] {
        let cli = Cli::try_parse_from(&arguments).unwrap();
        assert!(matches!(
            cli.command,
            Command::Remove {
                name,
                force: true
            } if name == "feature-login"
        ));
    }
}

#[test]
fn run_cli_defaults_to_direct_and_preserves_runtime_argument_boundaries() {
    let cli = Cli::try_parse_from(&[
        "david",
        "run",
        "-a",
        "codex",
        "feature-login",
        "--",
        "--model",
        "gpt 5.6",
        "$()",
    ])
    .unwrap();

    match cli.command {
        Command::Run {
            name,
            agent,
            tmux,
            detach,
            no_interactive,
            agent_args,
        } => {
            assert_eq!(name.as_deref(), Some("feature-login"));
            assert_eq!(agent.as_deref(), Some("codex"));
            assert!(!tmux);
            assert!(!detach);
            assert!(!no_interactive);
            assert_eq!(agent_args, ["--model", "gpt 5.6", "$()"]);
        }
        command => panic!("unexpected command: {command:?}"),
    }
}

#[test]
fn run_cli_supports_explicit_legacy_tmux_mode() {
    let cli =
        Cli::try_parse_from(&["david", "run", "--tmux", "-a", "codex", "feature-login"]).unwrap();

    assert!(matches!(
        cli.command,
        Command::Run {
            tmux: true,
            detach: false,
            ..
        }
    ));
}

#[test]
fn detach_remains_available_as_a_legacy_tmux_operation() {
    let cli = Cli::try_parse_from(&["david", "run", "-d", "feature-login"]).unwrap();

    assert!(matches!(
        cli.command,
        Command::Run {
            tmux: false,
            detach: true,
            ..
        }
    ));
}

#[test]
fn noninteractive_or_nonterminal_input_disables_interaction() {
    assert!(terminal_interaction_allowed(false, true, true));
    assert!(!terminal_interaction_allowed(true, true, true));
    assert!(!terminal_interaction_allowed(false, false, true));
    assert!(!terminal_interaction_allowed(false, true, false));
}

#[test]
fn attach_cli_parses_the_worktree_name() {
    let cli = Cli::try_parse_from(&["david", "attach", "feature-login"]).unwrap();
    assert!(matches!(cli.command, Command::Attach { name } if name == "feature-login"));
}

#[test]
fn prompt_cli_preserves_message_bytes_received_by_clap() {
    let message = "--literal 'quotes' $() 😀\tline one\nline two";
    let cli = Cli::try_parse_from(&["david", "prompt", "feature", message]).unwrap();

    match cli.command {
        Command::Prompt {
            worktree,
            message: parsed,
        } => {
            assert_eq!(worktree, "feature");
            assert_eq!(parsed, message);
        }
        command => panic!("unexpected command: {command:?}"),
    }

    let cli = Cli::try_parse_from(&["david", "prompt", "feature", ""]).unwrap();
    assert!(matches!(
        cli.command,
        Command::Prompt { message, .. } if message.is_empty()
    ));

    let cli = Cli::try_parse_from(&["david", "prompt", "feature", "--", "--help"]).unwrap();
    assert!(matches!(
        cli.command,
        Command::Prompt { message, .. } if message == "--help"
    ));
}

#[test]
fn list_zero_requires_porcelain() {
    let error = Cli::try_parse_from(&["david", "list", "-z"]).unwrap_err();

    assert_eq!(error.exit_code(), 2);
}

#[test]
fn list_cli_parses_porcelain_and_zero_options() {
    let cli = Cli::try_parse_from(&["david", "list", "--porcelain", "-z"]).unwrap();

    assert!(matches!(
        cli.command,
        Command::List {
            porcelain: true,
            zero: true
        }
    ));
}

#[test]
fn path_cli_parses_zero_option_and_name() {
    let cli = Cli::try_parse_from(&["david", "path", "-0", "feature"]).unwrap();

    assert!(matches!(
        cli.command,
        Command::Path {
            name,
            zero: true
        } if name == "feature"
    ));
}

#[test]
fn cli_rejects_list_zero_without_porcelain_and_documents_new_options() {
    let invalid = Cli::try_parse_from(&["david", "list", "-z"]).unwrap_err();
    assert_eq!(invalid.exit_code(), 2);

    let list_help = Cli::try_parse_from(&["david", "list", "--help"]).unwrap_err();
    assert_eq!(list_help, CliError::Help);
    assert_eq!(list_help.exit_code(), 0);

    let path_help = Cli::try_parse_from(&["david", "path", "--help"]).unwrap_err();
    assert_eq!(path_help, CliError::Help);
    assert_eq!(path_help.exit_code(), 0);
}

#[test]
fn run_without_name_in_noninteractive_mode_exits_one() {
    let cli = Cli::try_parse_from(&["david", "run", "--no-interactive"]).unwrap();
    let Command::Run {
        name,
        tmux,
        detach,
        no_interactive,
        ..
    } = cli.command
    else {
        panic!("not a run");
    };
    let interaction = terminal_interaction_allowed(no_interactive, true, true);
    let error = plan_run(name.is_some(), tmux, detach, interaction).unwrap_err();

    assert_eq!(error.exit_code(), 1);
    assert!(error.text().contains("non-interactive"));
}

#[test]
fn agent_option_is_read_in_all_its_forms() {
    for arguments in [
        vec!["david", "run", "--agent", "codex"],
        vec!["david", "run", "--agent=codex"],
        vec!["david", "run", "-a", "codex"],
        vec!["david", "run", "-acodex"],
        vec!["david", "run", "-a=codex"],
        vec!["david", "run", "-dacodex"],
    ] {
        let cli = Cli::try_parse_from(&arguments).unwrap();
        assert!(matches!(
            cli.command,
            Command::Run { name: None, agent: Some(agent), .. } if agent == "codex"
        ));
    }
    let cli = Cli::try_parse_from(&["david", "run", "--agent="]).unwrap();
    assert!(matches!(
        cli.command,
        Command::Run { agent: Some(agent), .. } if agent.is_empty()
    ));
}

#[test]
fn invalid_command_lines_are_usage_errors() {
    for arguments in [
        vec!["david"],
        vec![],
        vec!["david", "unknown"],
        vec!["david", "run", "a", "b"],
        vec!["david", "run", "-a"],
        vec!["david", "run", "-a", "--tmux"],
        vec!["david", "run", "-a", "--", "x"],
        vec!["david", "run", "-a", "x", "--agent", "y"],
        vec!["david", "run", "--tmux", "--tmux"],
        vec!["david", "run", "--tmux=yes"],
        vec!["david", "run", "--unknown"],
        vec!["david", "run", "-x"],
        vec!["david", "remove"],
        vec!["david", "remove", "a", "b"],
        vec!["david", "prompt", "feature"],
        vec!["david", "prompt", "--worktree", "message"],
        vec!["david", "setup", "extra"],
        vec!["david", "help", "unknown"],
        vec!["david", "--", "run"],
    ] {
        let error = Cli::try_parse_from(&arguments).unwrap_err();
        assert_eq!(error, CliError::Usage, "{arguments:?}");
        assert_eq!(error.exit_code(), 2);
    }
}

#[test]
fn help_and_version_are_no_errors() {
    for arguments in [
        vec!["david", "--help"],
        vec!["david", "-h"],
        vec!["david", "help"],
        vec!["david", "help", "run"],
        vec!["david", "prompt", "feature", "-h"],
    ] {
        let error = Cli::try_parse_from(&arguments).unwrap_err();
        assert_eq!(error, CliError::Help);
        assert_eq!(error.exit_code(), 0);
    }
    let error = Cli::try_parse_from(&["david", "--version"]).unwrap_err();
    assert_eq!(error, CliError::Version);
    assert_eq!(error.exit_code(), 0);
    assert_eq!(
        Cli::try_parse_from(&["david", "-V"]).unwrap_err(),
        CliError::Version
    );
}

#[test]
fn remaining_commands_are_parsed() {
    assert!(matches!(
        Cli::try_parse_from(&["david", "setup"]).unwrap().command,
        Command::Setup
    ));
    assert!(matches!(
        Cli::try_parse_from(&["david", "migrate"]).unwrap().command,
        Command::Migrate { dry_run: false }
    ));
    assert!(matches!(
        Cli::try_parse_from(&["david", "migrate", "--dry-run"])
            .unwrap()
            .command,
        Command::Migrate { dry_run: true }
    ));
    assert!(matches!(
        Cli::try_parse_from(&["david", "edit", "feature"]).unwrap().command,
        Command::Edit { worktree } if worktree == "feature"
    ));
    assert!(matches!(
        Cli::try_parse_from(&["david", "list"]).unwrap().command,
        Command::List {
            porcelain: false,
            zero: false
        }
    ));
    assert!(matches!(
        Cli::try_parse_from(&["david", "remove", "--", "-x"]).unwrap().command,
        Command::Remove { name, force: false } if name == "-x"
    ));
    assert!(matches!(
        Cli::try_parse_from(&["david", "attach", "-"]).unwrap().command,
        Command::Attach { name } if name == "-"
    ));
    assert!(matches!(
        Cli::try_parse_from(&["david", "prompt", "feature", "-dash"]).unwrap().command,
        Command::Prompt { message, .. } if message == "-dash"
    ));
}

#[test]
fn everything_behind_two_dashes_goes_to_the_agent() {
    let cli = Cli::try_parse_from(&["david", "run", "--", "-h", "--", "--agent", "x"]).unwrap();
    match cli.command {
        Command::Run {
            name,
            agent,
            agent_args,
            ..
        } => {
            assert_eq!(name, None);
            assert_eq!(agent, None);
            assert_eq!(agent_args, ["-h", "--", "--agent", "x"]);
        }
        command => panic!("unexpected command: {command:?}"),
    }
}

#[test]
fn runs_are_planned_by_mode_and_terminal() {
    let direct = plan_run(true, false, false, true).unwrap();
    assert_eq!(direct.backend, Backend::Direct);
    assert!(direct.interactive && direct.attach && !direct.agent_first);

    let piped = plan_run(true, false, false, false).unwrap();
    assert_eq!(piped.backend, Backend::Direct);
    assert!(piped.attach && piped.agent_first);

    let tmux = plan_run(false, true, false, true).unwrap();
    assert_eq!(tmux.backend, Backend::Tmux);
    assert!(tmux.interactive && tmux.attach);

    let detached = plan_run(true, false, true, true).unwrap();
    assert_eq!(detached.backend, Backend::Tmux);
    assert!(detached.interactive && !detached.attach);

    let scripted = plan_run(true, true, false, false).unwrap();
    assert!(!scripted.interactive && !scripted.attach);

    assert_eq!(
        plan_run(false, false, false, false).unwrap_err().text(),
        "non-interactive run requires a worktree name"
    );
}

#[test]
fn completions_go_on_from_what_was_typed() {
    let names = vec![
        "feature".to_owned(),
        "fix".to_owned(),
        "feature/login".to_owned(),
    ];
    assert_eq!(
        worktree_completions(names, "fe"),
        ["feature", "feature/login"]
    );
    assert_eq!(worktree_completions(vec!["a".to_owned()], ""), ["a"]);
    assert!(worktree_completions(vec!["a".to_owned()], "b").is_empty());
}

#[test]
fn arguments_for_the_agent_change_nothing_else() {
    let parts = |line: &[&str]| match Cli::try_parse_from(line).unwrap().command {
        Command::Run {
            name,
            agent,
            tmux,
            detach,
            no_interactive,
            agent_args,
        } => ((name, agent, tmux, detach, no_interactive), agent_args),
        command => panic!("unexpected command: {command:?}"),
    };
    let (plain, none) = parts(&["david", "run", "-d", "-a", "codex", "x"]);
    let (same, rest) = parts(&[
        "david", "run", "-d", "-a", "codex", "x", "--", "--tmux", "-a", "y", "", "--",
    ]);
    assert_eq!(plain, same);
    assert!(none.is_empty());
    assert_eq!(rest, ["--tmux", "-a", "y", "", "--"]);
}
