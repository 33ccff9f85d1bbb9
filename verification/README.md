# david

`david` creates Git worktrees in a user-level directory and runs coding agents in
them, in the current terminal or in tmux sessions that last.

The logic is a library that Verus proves; the program around it is ordinary Rust.

| Where | What |
| --- | --- |
| `src/` | The verified library. |
| `tests/` | Its tests, with a repository, a home directory and a tmux server in memory. |
| `app/` | The program: command line, terminal, files, Git and tmux. |

## The library

- Text and paths: `text`, `bytes`, `path`, `hex`.
- What is read and written: `worktree` (lists of Git), `state` (records of
  sessions), `config` and `setup` (agents), `arguments` (a line of arguments),
  `cli` (the command line), `listing` (lists of worktrees), `error`.
- Where things are: `layout`, `identity`, `storage`, `migrate`.
- What is run: `git`, `tmux`, `process`.
- What happens: `steps` says which step of an operation comes next, given what the
  steps before it have shown, and `order` proves what holds of every such
  sequence; `flow` keeps what an operation has found out, and `app` takes those
  steps that are for sessions. `tasks`, `keys`, `settings` and `prompting` say what
  tmux is asked for, one command after the other; `direct` keeps the sessions that
  become the agent itself. `selection` and `dispatch` decide on agents and modes.

An operation is a value. Whoever runs it asks it for its next step, takes the step,
and tells it what came of that.

What is taken on trust is marked `external_body` or `assume_specification`, each
with what is claimed of the function behind it: `String::from_utf8_lossy`,
`String::from_utf8` and `String::push`, the debug form of a string,
`shell_words::split` and the text of its error.
