//! The command line: which commands there are, and what their arguments mean.

use vstd::prelude::*;

use crate::config;
use crate::text;
use crate::text::{
    chars_of, prefixed, same_text, split_at_char, stripped, text_between,
};

verus! {

/// A command with its arguments.
#[allow(inconsistent_fields)]
#[derive(Debug)]
pub enum Command {
    Setup,
    Migrate { dry_run: bool },
    Run {
        name: Option<String>,
        agent: Option<String>,
        tmux: bool,
        detach: bool,
        no_interactive: bool,
        agent_args: Vec<String>,
    },
    Edit { worktree: String },
    Attach { name: String },
    Prompt { worktree: String, message: String },
    List { porcelain: bool, zero: bool },
    Path { name: String, zero: bool },
    Remove { name: String, force: bool },
}

#[allow(inconsistent_fields)]
#[verifier::ext_equal]
pub enum CommandLine {
    Setup,
    Migrate { dry_run: bool },
    Run {
        name: Option<Seq<char>>,
        agent: Option<Seq<char>>,
        tmux: bool,
        detach: bool,
        no_interactive: bool,
        agent_args: Seq<Seq<char>>,
    },
    Edit { worktree: Seq<char> },
    Attach { name: Seq<char> },
    Prompt { worktree: Seq<char>, message: Seq<char> },
    List { porcelain: bool, zero: bool },
    Path { name: Seq<char>, zero: bool },
    Remove { name: Seq<char>, force: bool },
}

impl View for Command {
    type V = CommandLine;

    open spec fn view(&self) -> CommandLine {
        match self {
            Command::Setup => CommandLine::Setup,
            Command::Migrate { dry_run } => CommandLine::Migrate { dry_run: *dry_run },
            Command::Run { name, agent, tmux, detach, no_interactive, agent_args } =>
                CommandLine::Run {
                name: config::optional_text(*name),
                agent: config::optional_text(*agent),
                tmux: *tmux,
                detach: *detach,
                no_interactive: *no_interactive,
                agent_args: text::views(agent_args@),
            },
            Command::Edit { worktree } => CommandLine::Edit { worktree: worktree@ },
            Command::Attach { name } => CommandLine::Attach { name: name@ },
            Command::Prompt { worktree, message } => CommandLine::Prompt {
                worktree: worktree@,
                message: message@,
            },
            Command::List { porcelain, zero } => CommandLine::List {
                porcelain: *porcelain,
                zero: *zero,
            },
            Command::Path { name, zero } => CommandLine::Path { name: name@, zero: *zero },
            Command::Remove { name, force } => CommandLine::Remove { name: name@, force: *force },
        }
    }
}

/// Why a command line gives no command.
#[derive(Clone, Copy, Debug, PartialEq, Eq, Structural)]
pub enum CliError {
    /// Help was asked for.
    Help,
    /// The version was asked for.
    Version,
    /// The command line is not valid.
    Usage,
}

impl CliError {
    pub fn exit_code(self) -> (code: i32)
        ensures
            code == (if self == CliError::Usage {
                2i32
            } else {
                0i32
            }),
    {
        match self {
            CliError::Usage => 2,
            _ => 0,
        }
    }
}

/// The commands by name.
#[derive(Clone, Copy, Debug, PartialEq, Eq, Structural)]
pub enum Verb {
    Setup,
    Migrate,
    Run,
    Edit,
    Attach,
    Prompt,
    List,
    Path,
    Remove,
}

pub open spec fn verb_of(word: Seq<char>) -> Option<Verb> {
    if word == "setup"@ {
        Some(Verb::Setup)
    } else if word == "migrate"@ {
        Some(Verb::Migrate)
    } else if word == "run"@ {
        Some(Verb::Run)
    } else if word == "edit"@ {
        Some(Verb::Edit)
    } else if word == "attach"@ {
        Some(Verb::Attach)
    } else if word == "prompt"@ {
        Some(Verb::Prompt)
    } else if word == "list"@ {
        Some(Verb::List)
    } else if word == "path"@ {
        Some(Verb::Path)
    } else if word == "remove"@ {
        Some(Verb::Remove)
    } else {
        None
    }
}

fn verb(word: &str) -> (out: Option<Verb>)
    ensures
        out == verb_of(word@),
{
    if same_text(word, "setup") {
        Some(Verb::Setup)
    } else if same_text(word, "migrate") {
        Some(Verb::Migrate)
    } else if same_text(word, "run") {
        Some(Verb::Run)
    } else if same_text(word, "edit") {
        Some(Verb::Edit)
    } else if same_text(word, "attach") {
        Some(Verb::Attach)
    } else if same_text(word, "prompt") {
        Some(Verb::Prompt)
    } else if same_text(word, "list") {
        Some(Verb::List)
    } else if same_text(word, "path") {
        Some(Verb::Path)
    } else if same_text(word, "remove") {
        Some(Verb::Remove)
    } else {
        None
    }
}

/// The options of all commands together.
#[derive(Clone, Copy, Debug, PartialEq, Eq, Structural)]
pub enum Flag {
    Help,
    DryRun,
    /// The only one with a value.
    Agent,
    Tmux,
    Detach,
    NoInteractive,
    Porcelain,
    Zero,
    Force,
}

/// An option by its long name.
pub open spec fn long_flag(verb: Verb, name: Seq<char>) -> Option<Flag> {
    if name == "help"@ {
        Some(Flag::Help)
    } else {
        match verb {
            Verb::Migrate => if name == "dry-run"@ {
                Some(Flag::DryRun)
            } else {
                None
            },
            Verb::Run => if name == "agent"@ {
                Some(Flag::Agent)
            } else if name == "tmux"@ {
                Some(Flag::Tmux)
            } else if name == "detach"@ {
                Some(Flag::Detach)
            } else if name == "no-interactive"@ {
                Some(Flag::NoInteractive)
            } else {
                None
            },
            Verb::List => if name == "porcelain"@ {
                Some(Flag::Porcelain)
            } else {
                None
            },
            Verb::Remove => if name == "force"@ {
                Some(Flag::Force)
            } else {
                None
            },
            _ => None,
        }
    }
}

fn find_long(verb: Verb, name: &str) -> (out: Option<Flag>)
    ensures
        out == long_flag(verb, name@),
{
    if same_text(name, "help") {
        return Some(Flag::Help);
    }
    match verb {
        Verb::Migrate => if same_text(name, "dry-run") {
            Some(Flag::DryRun)
        } else {
            None
        },
        Verb::Run => if same_text(name, "agent") {
            Some(Flag::Agent)
        } else if same_text(name, "tmux") {
            Some(Flag::Tmux)
        } else if same_text(name, "detach") {
            Some(Flag::Detach)
        } else if same_text(name, "no-interactive") {
            Some(Flag::NoInteractive)
        } else {
            None
        },
        Verb::List => if same_text(name, "porcelain") {
            Some(Flag::Porcelain)
        } else {
            None
        },
        Verb::Remove => if same_text(name, "force") {
            Some(Flag::Force)
        } else {
            None
        },
        _ => None,
    }
}

/// An option by its letter.
pub open spec fn short_flag(verb: Verb, letter: char) -> Option<Flag> {
    if letter == 'h' {
        Some(Flag::Help)
    } else if verb == Verb::Run && letter == 'a' {
        Some(Flag::Agent)
    } else if verb == Verb::Run && letter == 'd' {
        Some(Flag::Detach)
    } else if verb == Verb::List && letter == 'z' {
        Some(Flag::Zero)
    } else if verb == Verb::Path && letter == '0' {
        Some(Flag::Zero)
    } else {
        None
    }
}

fn find_short(verb: Verb, letter: char) -> (out: Option<Flag>)
    ensures
        out == short_flag(verb, letter),
{
    if letter == 'h' {
        Some(Flag::Help)
    } else if verb == Verb::Run && letter == 'a' {
        Some(Flag::Agent)
    } else if verb == Verb::Run && letter == 'd' {
        Some(Flag::Detach)
    } else if verb == Verb::List && letter == 'z' {
        Some(Flag::Zero)
    } else if verb == Verb::Path && letter == '0' {
        Some(Flag::Zero)
    } else {
        None
    }
}

/// How many plain arguments a command takes before `--`.
pub open spec fn capacity(verb: Verb) -> nat {
    match verb {
        Verb::Setup | Verb::Migrate | Verb::List => 0,
        Verb::Prompt => 2,
        _ => 1,
    }
}

fn capacity_of(verb: Verb) -> (n: usize)
    ensures
        n == capacity(verb),
{
    match verb {
        Verb::Setup | Verb::Migrate | Verb::List => 0,
        Verb::Prompt => 2,
        _ => 1,
    }
}

/// What has been read of the arguments of a command.
#[derive(Debug)]
pub struct Arguments {
    pub dry_run: bool,
    pub tmux: bool,
    pub detach: bool,
    pub no_interactive: bool,
    pub porcelain: bool,
    pub zero: bool,
    pub force: bool,
    pub agent: Option<String>,
    /// Plain arguments.
    pub plain: Vec<String>,
    /// Arguments behind `--` that are passed on.
    pub rest: Vec<String>,
    /// `--` was read: no more options.
    pub literal: bool,
    /// The value of the option for the agent is still to come.
    pub pending: bool,
}

#[verifier::ext_equal]
pub struct ArgumentsModel {
    pub dry_run: bool,
    pub tmux: bool,
    pub detach: bool,
    pub no_interactive: bool,
    pub porcelain: bool,
    pub zero: bool,
    pub force: bool,
    pub agent: Option<Seq<char>>,
    pub plain: Seq<Seq<char>>,
    pub rest: Seq<Seq<char>>,
    pub literal: bool,
    pub pending: bool,
}

impl View for Arguments {
    type V = ArgumentsModel;

    open spec fn view(&self) -> ArgumentsModel {
        ArgumentsModel {
            dry_run: self.dry_run,
            tmux: self.tmux,
            detach: self.detach,
            no_interactive: self.no_interactive,
            porcelain: self.porcelain,
            zero: self.zero,
            force: self.force,
            agent: config::optional_text(self.agent),
            plain: text::views(self.plain@),
            rest: text::views(self.rest@),
            literal: self.literal,
            pending: self.pending,
        }
    }
}

pub open spec fn nothing_read() -> ArgumentsModel {
    ArgumentsModel {
        dry_run: false,
        tmux: false,
        detach: false,
        no_interactive: false,
        porcelain: false,
        zero: false,
        force: false,
        agent: None,
        plain: Seq::empty(),
        rest: Seq::empty(),
        literal: false,
        pending: false,
    }
}

/// An option without a value, which may be given once.
pub open spec fn with_flag(read: ArgumentsModel, flag: Flag) -> Result<ArgumentsModel, CliError> {
    if read.pending {
        Err(CliError::Usage)
    } else {
        match flag {
            Flag::Help => Err(CliError::Help),
            Flag::DryRun => if read.dry_run {
                Err(CliError::Usage)
            } else {
                Ok(ArgumentsModel { dry_run: true, ..read })
            },
            Flag::Tmux => if read.tmux {
                Err(CliError::Usage)
            } else {
                Ok(ArgumentsModel { tmux: true, ..read })
            },
            Flag::Detach => if read.detach {
                Err(CliError::Usage)
            } else {
                Ok(ArgumentsModel { detach: true, ..read })
            },
            Flag::NoInteractive => if read.no_interactive {
                Err(CliError::Usage)
            } else {
                Ok(ArgumentsModel { no_interactive: true, ..read })
            },
            Flag::Porcelain => if read.porcelain {
                Err(CliError::Usage)
            } else {
                Ok(ArgumentsModel { porcelain: true, ..read })
            },
            Flag::Zero => if read.zero {
                Err(CliError::Usage)
            } else {
                Ok(ArgumentsModel { zero: true, ..read })
            },
            Flag::Force => if read.force {
                Err(CliError::Usage)
            } else {
                Ok(ArgumentsModel { force: true, ..read })
            },
            Flag::Agent => Ok(ArgumentsModel { pending: true, ..read }),
        }
    }
}

/// The agent, which may be given once.
pub open spec fn with_agent(read: ArgumentsModel, value: Seq<char>) -> Result<
    ArgumentsModel,
    CliError,
> {
    if read.agent is Some {
        Err(CliError::Usage)
    } else {
        Ok(ArgumentsModel { agent: Some(value), pending: false, ..read })
    }
}

/// A plain argument: behind `--` a run passes it on.
pub open spec fn with_plain(verb: Verb, read: ArgumentsModel, value: Seq<char>) -> Result<
    ArgumentsModel,
    CliError,
> {
    if verb == Verb::Run && read.literal {
        Ok(ArgumentsModel { rest: read.rest.push(value), ..read })
    } else if read.plain.len() < capacity(verb) {
        Ok(ArgumentsModel { plain: read.plain.push(value), ..read })
    } else {
        Err(CliError::Usage)
    }
}

/// The next plain argument is a message, which may start with a dash.
pub open spec fn expects_message(verb: Verb, read: ArgumentsModel) -> bool {
    verb == Verb::Prompt && read.plain.len() == 1
}

/// An argument `--name` or `--name=value`, without the dashes.
pub open spec fn with_long(
    verb: Verb,
    read: ArgumentsModel,
    word: Seq<char>,
    argument: Seq<char>,
) -> Result<ArgumentsModel, CliError> {
    let (name, value) = match text::split_once(word, '=') {
        Some((name, value)) => (name, Some(value)),
        None => (word, None),
    };
    match long_flag(verb, name) {
        Some(Flag::Agent) => match value {
            Some(value) => if read.pending {
                Err(CliError::Usage)
            } else {
                with_agent(read, value)
            },
            None => with_flag(read, Flag::Agent),
        },
        Some(flag) => if value is Some {
            Err(CliError::Usage)
        } else {
            with_flag(read, flag)
        },
        None => if expects_message(verb, read) {
            with_plain(verb, read, argument)
        } else {
            Err(CliError::Usage)
        },
    }
}

/// The letters behind a single dash, from a place on. The value of an option may
/// follow its letter directly.
pub open spec fn with_letters(
    verb: Verb,
    read: ArgumentsModel,
    letters: Seq<char>,
) -> Result<ArgumentsModel, CliError>
    decreases letters.len(),
{
    if letters.len() == 0 {
        Ok(read)
    } else {
        match short_flag(verb, letters[0]) {
            None => Err(CliError::Usage),
            Some(Flag::Agent) => if read.pending {
                Err(CliError::Usage)
            } else if letters.len() == 1 {
                with_flag(read, Flag::Agent)
            } else if letters[1] == '=' {
                with_agent(read, letters.skip(2))
            } else {
                with_agent(read, letters.skip(1))
            },
            Some(flag) => match with_flag(read, flag) {
                Ok(after) => with_letters(verb, after, letters.skip(1)),
                Err(e) => Err(e),
            },
        }
    }
}

/// All letters are options.
pub open spec fn all_known(verb: Verb, letters: Seq<char>) -> bool {
    forall|i: int| 0 <= i < letters.len() ==> short_flag(verb, #[trigger] letters[i]) is Some
}

/// One argument.
pub open spec fn with_argument(verb: Verb, read: ArgumentsModel, argument: Seq<char>) -> Result<
    ArgumentsModel,
    CliError,
> {
    if read.literal {
        with_plain(verb, read, argument)
    } else if argument == "--"@ {
        if read.pending {
            Err(CliError::Usage)
        } else {
            Ok(ArgumentsModel { literal: true, ..read })
        }
    } else if text::starts_with(argument, "--"@) {
        with_long(verb, read, argument.skip("--"@.len() as int), argument)
    } else if text::starts_with(argument, "-"@) && argument != "-"@ {
        let letters = argument.skip("-"@.len() as int);
        if expects_message(verb, read) && !all_known(verb, letters) {
            with_plain(verb, read, argument)
        } else {
            with_letters(verb, read, letters)
        }
    } else if read.pending {
        with_agent(read, argument)
    } else {
        with_plain(verb, read, argument)
    }
}

/// All arguments, one after the other; the first that is wrong decides.
pub open spec fn with_arguments(
    verb: Verb,
    read: ArgumentsModel,
    arguments: Seq<Seq<char>>,
) -> Result<ArgumentsModel, CliError>
    decreases arguments.len(),
{
    if arguments.len() == 0 {
        Ok(read)
    } else {
        match with_argument(verb, read, arguments[0]) {
            Ok(after) => with_arguments(verb, after, arguments.skip(1)),
            Err(e) => Err(e),
        }
    }
}

/// The command that the arguments amount to.
pub open spec fn completed(verb: Verb, read: ArgumentsModel) -> Result<CommandLine, CliError> {
    if read.pending {
        Err(CliError::Usage)
    } else if verb != Verb::Run && read.plain.len() < capacity(verb) {
        Err(CliError::Usage)
    } else {
        match verb {
            Verb::Setup => Ok(CommandLine::Setup),
            Verb::Migrate => Ok(CommandLine::Migrate { dry_run: read.dry_run }),
            Verb::Run => Ok(
                CommandLine::Run {
                    name: if read.plain.len() > 0 {
                        Some(read.plain[0])
                    } else {
                        None
                    },
                    agent: read.agent,
                    tmux: read.tmux,
                    detach: read.detach,
                    no_interactive: read.no_interactive,
                    agent_args: read.rest,
                },
            ),
            Verb::Edit => Ok(CommandLine::Edit { worktree: read.plain[0] }),
            Verb::Attach => Ok(CommandLine::Attach { name: read.plain[0] }),
            Verb::Prompt => Ok(
                CommandLine::Prompt { worktree: read.plain[0], message: read.plain[1] },
            ),
            Verb::List => if read.zero && !read.porcelain {
                Err(CliError::Usage)
            } else {
                Ok(CommandLine::List { porcelain: read.porcelain, zero: read.zero })
            },
            Verb::Path => Ok(CommandLine::Path { name: read.plain[0], zero: read.zero }),
            Verb::Remove => Ok(CommandLine::Remove { name: read.plain[0], force: read.force }),
        }
    }
}

pub open spec fn parsed(verb: Verb, arguments: Seq<Seq<char>>) -> Result<CommandLine, CliError> {
    match with_arguments(verb, nothing_read(), arguments) {
        Ok(read) => completed(verb, read),
        Err(e) => Err(e),
    }
}

/// A whole command line, without the name of the program.
pub open spec fn command_line(arguments: Seq<Seq<char>>) -> Result<CommandLine, CliError> {
    if arguments.len() == 0 {
        Err(CliError::Usage)
    } else if arguments[0] == "--help"@ {
        Err(CliError::Help)
    } else if arguments[0] == "--version"@ {
        Err(CliError::Version)
    } else if text::starts_with(arguments[0], "-h"@) {
        Err(CliError::Help)
    } else if text::starts_with(arguments[0], "-V"@) {
        Err(CliError::Version)
    } else if arguments[0] == "help"@ {
        if arguments.len() == 1 || (arguments.len() == 2 && (arguments[1] == "help"@ || verb_of(
            arguments[1],
        ) is Some)) {
            Err(CliError::Help)
        } else {
            Err(CliError::Usage)
        }
    } else {
        match verb_of(arguments[0]) {
            Some(verb) => parsed(verb, arguments.skip(1)),
            None => Err(CliError::Usage),
        }
    }
}

impl Arguments {
    fn new() -> (read: Arguments)
        ensures
            read@ == nothing_read(),
    {
        let read: Arguments = Arguments {
            dry_run: false,
            tmux: false,
            detach: false,
            no_interactive: false,
            porcelain: false,
            zero: false,
            force: false,
            agent: None,
            plain: Vec::new(),
            rest: Vec::new(),
            literal: false,
            pending: false,
        };
        assert(read@ =~= nothing_read());
        read
    }

    fn flag(self, flag: Flag) -> (out: Result<Arguments, CliError>)
        ensures
            match out {
                Ok(read) => with_flag(self@, flag) == Ok::<ArgumentsModel, CliError>(read@),
                Err(e) => with_flag(self@, flag) == Err::<ArgumentsModel, CliError>(e),
            },
    {
        let mut read: Arguments = self;
        if read.pending {
            return Err(CliError::Usage);
        }
        match flag {
            Flag::Help => {
                return Err(CliError::Help);
            },
            Flag::DryRun => {
                if read.dry_run {
                    return Err(CliError::Usage);
                }
                read.dry_run = true;
            },
            Flag::Tmux => {
                if read.tmux {
                    return Err(CliError::Usage);
                }
                read.tmux = true;
            },
            Flag::Detach => {
                if read.detach {
                    return Err(CliError::Usage);
                }
                read.detach = true;
            },
            Flag::NoInteractive => {
                if read.no_interactive {
                    return Err(CliError::Usage);
                }
                read.no_interactive = true;
            },
            Flag::Porcelain => {
                if read.porcelain {
                    return Err(CliError::Usage);
                }
                read.porcelain = true;
            },
            Flag::Zero => {
                if read.zero {
                    return Err(CliError::Usage);
                }
                read.zero = true;
            },
            Flag::Force => {
                if read.force {
                    return Err(CliError::Usage);
                }
                read.force = true;
            },
            Flag::Agent => {
                read.pending = true;
            },
        }
        Ok(read)
    }

    fn agent(self, value: String) -> (out: Result<Arguments, CliError>)
        ensures
            match out {
                Ok(read) => with_agent(self@, value@) == Ok::<ArgumentsModel, CliError>(read@),
                Err(e) => with_agent(self@, value@) == Err::<ArgumentsModel, CliError>(e),
            },
    {
        let mut read: Arguments = self;
        if read.agent.is_some() {
            return Err(CliError::Usage);
        }
        read.agent = Some(value);
        read.pending = false;
        Ok(read)
    }

    fn plain(self, verb: Verb, value: String) -> (out: Result<Arguments, CliError>)
        ensures
            match out {
                Ok(read) => with_plain(verb, self@, value@) == Ok::<ArgumentsModel, CliError>(
                    read@,
                ),
                Err(e) => with_plain(verb, self@, value@) == Err::<ArgumentsModel, CliError>(e),
            },
    {
        let mut read: Arguments = self;
        assert(read@.plain.len() == read.plain@.len());
        if verb == Verb::Run && read.literal {
            let ghost before = text::views(read.rest@);
            read.rest.push(value);
            assert(text::views(read.rest@) =~= before.push(value@));
            Ok(read)
        } else if read.plain.len() < capacity_of(verb) {
            let ghost before = text::views(read.plain@);
            read.plain.push(value);
            assert(text::views(read.plain@) =~= before.push(value@));
            Ok(read)
        } else {
            Err(CliError::Usage)
        }
    }

    fn message_next(&self, verb: Verb) -> (r: bool)
        ensures
            r == expects_message(verb, self@),
    {
        assert(self@.plain.len() == self.plain@.len());
        verb == Verb::Prompt && self.plain.len() == 1
    }

    fn long(self, verb: Verb, word: &str, argument: &str) -> (out: Result<Arguments, CliError>)
        ensures
            match out {
                Ok(read) => with_long(verb, self@, word@, argument@) == Ok::<
                    ArgumentsModel,
                    CliError,
                >(read@),
                Err(e) => with_long(verb, self@, word@, argument@) == Err::<
                    ArgumentsModel,
                    CliError,
                >(e),
            },
    {
        let (name, value): (String, Option<String>) = match split_at_char(word, '=') {
            Some((name, value)) => (name, Some(value)),
            None => (word.to_owned(), None),
        };
        match find_long(verb, name.as_str()) {
            Some(Flag::Agent) => match value {
                Some(value) => if self.pending {
                    Err(CliError::Usage)
                } else {
                    self.agent(value)
                },
                None => self.flag(Flag::Agent),
            },
            Some(flag) => if value.is_some() {
                Err(CliError::Usage)
            } else {
                self.flag(flag)
            },
            None => if self.message_next(verb) {
                self.plain(verb, argument.to_owned())
            } else {
                Err(CliError::Usage)
            },
        }
    }

    fn letters(self, verb: Verb, letters: &Vec<char>, from: usize) -> (out: Result<
        Arguments,
        CliError,
    >)
        requires
            from <= letters@.len(),
        ensures
            match out {
                Ok(read) => with_letters(verb, self@, letters@.skip(from as int)) == Ok::<
                    ArgumentsModel,
                    CliError,
                >(read@),
                Err(e) => with_letters(verb, self@, letters@.skip(from as int)) == Err::<
                    ArgumentsModel,
                    CliError,
                >(e),
            },
        decreases letters@.len() - from,
    {
        let ghost rest = letters@.skip(from as int);
        if from == letters.len() {
            return Ok(self);
        }
        assert(rest[0] == letters@[from as int]);
        assert(rest.skip(1) =~= letters@.skip(from + 1));
        match find_short(verb, letters[from]) {
            None => Err(CliError::Usage),
            Some(Flag::Agent) => {
                if self.pending {
                    return Err(CliError::Usage);
                }
                if letters.len() - from == 1 {
                    return self.flag(Flag::Agent);
                }
                assert(rest[1] == letters@[from + 1]);
                let start: usize = if letters[from + 1] == '=' {
                    from + 2
                } else {
                    from + 1
                };
                let value: String = text_between(letters.as_slice(), start, letters.len());
                assert(value@ =~= rest.skip(start - from));
                self.agent(value)
            },
            Some(flag) => match self.flag(flag) {
                Ok(after) => after.letters(verb, letters, from + 1),
                Err(e) => Err(e),
            },
        }
    }

    fn argument(self, verb: Verb, argument: &str) -> (out: Result<Arguments, CliError>)
        ensures
            match out {
                Ok(read) => with_argument(verb, self@, argument@) == Ok::<
                    ArgumentsModel,
                    CliError,
                >(read@),
                Err(e) => with_argument(verb, self@, argument@) == Err::<
                    ArgumentsModel,
                    CliError,
                >(e),
            },
    {
        if self.literal {
            return self.plain(verb, argument.to_owned());
        }
        if same_text(argument, "--") {
            if self.pending {
                return Err(CliError::Usage);
            }
            let mut read: Arguments = self;
            read.literal = true;
            return Ok(read);
        }
        if let Some(word) = stripped(argument, "--") {
            return self.long(verb, word.as_str(), argument);
        }
        if !same_text(argument, "-") {
            if let Some(word) = stripped(argument, "-") {
                let letters: Vec<char> = chars_of(word.as_str());
                if self.message_next(verb) && !known_letters(verb, &letters) {
                    return self.plain(verb, argument.to_owned());
                }
                assert(letters@.skip(0) =~= letters@);
                return self.letters(verb, &letters, 0);
            }
        }
        if self.pending {
            self.agent(argument.to_owned())
        } else {
            self.plain(verb, argument.to_owned())
        }
    }

    fn complete(self, verb: Verb) -> (out: Result<Command, CliError>)
        ensures
            match out {
                Ok(command) => completed(verb, self@) == Ok::<CommandLine, CliError>(command@),
                Err(e) => completed(verb, self@) == Err::<CommandLine, CliError>(e),
            },
    {
        assert(self@.plain.len() == self.plain@.len());
        if self.pending {
            return Err(CliError::Usage);
        }
        if verb != Verb::Run && self.plain.len() < capacity_of(verb) {
            return Err(CliError::Usage);
        }
        let command: Command = match verb {
            Verb::Setup => Command::Setup,
            Verb::Migrate => Command::Migrate { dry_run: self.dry_run },
            Verb::Run => {
                let name: Option<String> = if self.plain.len() > 0 {
                    assert(self@.plain[0] == self.plain@[0]@);
                    Some(self.plain[0].clone())
                } else {
                    None
                };
                Command::Run {
                    name,
                    agent: self.agent,
                    tmux: self.tmux,
                    detach: self.detach,
                    no_interactive: self.no_interactive,
                    agent_args: self.rest,
                }
            },
            Verb::Edit => {
                assert(self@.plain[0] == self.plain@[0]@);
                Command::Edit { worktree: self.plain[0].clone() }
            },
            Verb::Attach => {
                assert(self@.plain[0] == self.plain@[0]@);
                Command::Attach { name: self.plain[0].clone() }
            },
            Verb::Prompt => {
                assert(self@.plain[0] == self.plain@[0]@);
                assert(self@.plain[1] == self.plain@[1]@);
                Command::Prompt { worktree: self.plain[0].clone(), message: self.plain[1].clone() }
            },
            Verb::List => {
                if self.zero && !self.porcelain {
                    return Err(CliError::Usage);
                }
                Command::List { porcelain: self.porcelain, zero: self.zero }
            },
            Verb::Path => {
                assert(self@.plain[0] == self.plain@[0]@);
                Command::Path { name: self.plain[0].clone(), zero: self.zero }
            },
            Verb::Remove => {
                assert(self@.plain[0] == self.plain@[0]@);
                Command::Remove { name: self.plain[0].clone(), force: self.force }
            },
        };
        Ok(command)
    }
}

fn known_letters(verb: Verb, letters: &Vec<char>) -> (r: bool)
    ensures
        r == all_known(verb, letters@),
{
    let mut i: usize = 0;
    while i < letters.len()
        invariant
            i <= letters@.len(),
            forall|j: int| 0 <= j < i ==> short_flag(verb, #[trigger] letters@[j]) is Some,
        decreases letters@.len() - i,
    {
        if find_short(verb, letters[i]).is_none() {
            return false;
        }
        i = i + 1;
    }
    true
}

fn parse(verb: Verb, arguments: &[&str], from: usize) -> (out: Result<Command, CliError>)
    requires
        from <= arguments@.len(),
    ensures
        ({
            let words = arguments@.map_values(|word: &str| word@).skip(from as int);
            match out {
                Ok(command) => parsed(verb, words) == Ok::<CommandLine, CliError>(command@),
                Err(e) => parsed(verb, words) == Err::<CommandLine, CliError>(e),
            }
        }),
{
    let ghost words = arguments@.map_values(|word: &str| word@).skip(from as int);
    let mut read: Arguments = Arguments::new();
    let mut i: usize = from;
    assert(words.skip(0) =~= words);
    while i < arguments.len()
        invariant
            from <= i <= arguments@.len(),
            words == arguments@.map_values(|word: &str| word@).skip(from as int),
            with_arguments(verb, read@, words.skip(i - from)) == with_arguments(
                verb,
                nothing_read(),
                words,
            ),
        decreases arguments@.len() - i,
    {
        assert(words.skip(i - from)[0] == arguments@[i as int]@);
        assert(words.skip(i - from).skip(1) =~= words.skip(i - from + 1));
        match read.argument(verb, arguments[i]) {
            Ok(after) => {
                read = after;
            },
            Err(e) => {
                return Err(e);
            },
        }
        i = i + 1;
    }
    read.complete(verb)
}

/// A command line that was understood.
#[derive(Debug)]
pub struct Cli {
    pub command: Command,
}

impl Cli {
    /// Reads a command line; the first argument is the name of the program.
    pub fn try_parse_from(arguments: &[&str]) -> (out: Result<Cli, CliError>)
        ensures
            ({
                let words = arguments@.map_values(|word: &str| word@);
                let line = command_line(
                    if words.len() > 0 {
                        words.skip(1)
                    } else {
                        words
                    },
                );
                match out {
                    Ok(cli) => line == Ok::<CommandLine, CliError>(cli.command@),
                    Err(e) => line == Err::<CommandLine, CliError>(e),
                }
            }),
    {
        let ghost words = arguments@.map_values(|word: &str| word@);
        if arguments.len() < 2 {
            return Err(CliError::Usage);
        }
        let ghost line = words.skip(1);
        let first: &str = arguments[1];
        assert(line[0] == first@);
        if same_text(first, "--help") {
            return Err(CliError::Help);
        }
        if same_text(first, "--version") {
            return Err(CliError::Version);
        }
        if prefixed(first, "-h") {
            return Err(CliError::Help);
        }
        if prefixed(first, "-V") {
            return Err(CliError::Version);
        }
        if same_text(first, "help") {
            if arguments.len() == 2 {
                return Err(CliError::Help);
            }
            assert(line[1] == arguments@[2]@);
            if arguments.len() == 3 && (same_text(arguments[2], "help") || verb(
                arguments[2],
            ).is_some()) {
                return Err(CliError::Help);
            }
            return Err(CliError::Usage);
        }
        match verb(first) {
            Some(verb) => {
                assert(line.skip(1) =~= words.skip(2));
                match parse(verb, arguments, 2) {
                    Ok(command) => Ok(Cli { command }),
                    Err(e) => Err(e),
                }
            },
            None => Err(CliError::Usage),
        }
    }
}

/// Once `--` was read, a run passes on everything that follows.
proof fn lemma_literal(read: ArgumentsModel, extra: Seq<Seq<char>>)
    requires
        read.literal,
    ensures
        with_arguments(Verb::Run, read, extra) == Ok::<ArgumentsModel, CliError>(
            (ArgumentsModel { rest: read.rest + extra, ..read }),
        ),
    decreases extra.len(),
{
    if extra.len() == 0 {
        assert(read.rest + extra =~= read.rest);
    } else {
        let after = ArgumentsModel { rest: read.rest.push(extra[0]), ..read };
        lemma_literal(after, extra.skip(1));
        assert(after.rest + extra.skip(1) =~= read.rest + extra);
    }
}

/// Arguments are read one after the other.
proof fn lemma_read_on(
    verb: Verb,
    read: ArgumentsModel,
    first: Seq<Seq<char>>,
    more: Seq<Seq<char>>,
)
    ensures
        with_arguments(verb, read, first + more) == (match with_arguments(verb, read, first) {
            Ok(after) => with_arguments(verb, after, more),
            Err(e) => Err(e),
        }),
    decreases first.len(),
{
    if first.len() == 0 {
        assert(first + more =~= more);
    } else {
        assert((first + more).skip(1) =~= first.skip(1) + more);
        if let Ok(after) = with_argument(verb, read, first[0]) {
            lemma_read_on(verb, after, first.skip(1), more);
        }
    }
}

/// Nothing is kept for the agent before `--` was read.
proof fn lemma_nothing_passed_on_yet(read: ArgumentsModel, arguments: Seq<Seq<char>>)
    requires
        !read.literal,
        read.rest.len() == 0,
    ensures
        with_arguments(Verb::Run, read, arguments) matches Ok(after) ==> after.literal
            || after.rest.len() == 0,
    decreases arguments.len(),
{
    if arguments.len() > 0 {
        if let Ok(after) = with_argument(Verb::Run, read, arguments[0]) {
            lemma_letters_pass_nothing_on(read, arguments[0].skip("-"@.len() as int));
            if after.literal {
                lemma_literal(after, arguments.skip(1));
            } else {
                lemma_nothing_passed_on_yet(after, arguments.skip(1));
            }
        }
    }
}

proof fn lemma_letters_pass_nothing_on(read: ArgumentsModel, letters: Seq<char>)
    ensures
        with_letters(Verb::Run, read, letters) matches Ok(after) ==> after.literal == read.literal
            && after.rest == read.rest,
    decreases letters.len(),
{
    if letters.len() > 0 {
        if let Some(flag) = short_flag(Verb::Run, letters[0]) {
            if let Ok(after) = with_flag(read, flag) {
                lemma_letters_pass_nothing_on(after, letters.skip(1));
            }
        }
    }
}

/// What stands behind the first `--` of a run is passed on to the agent word for
/// word, whatever it looks like, and changes nothing else.
pub proof fn literal_arguments_are_passed_on(before: Seq<Seq<char>>, extra: Seq<Seq<char>>)
    requires
        with_arguments(Verb::Run, nothing_read(), before) matches Ok(read) && !read.literal
            && !read.pending,
    ensures
        parsed(Verb::Run, before) matches Ok(CommandLine::Run {
            name,
            agent,
            tmux,
            detach,
            no_interactive,
            agent_args,
        }) && agent_args.len() == 0 && parsed(Verb::Run, before + seq!["--"@] + extra) == Ok::<
            CommandLine,
            CliError,
        >(
            CommandLine::Run {
                name,
                agent,
                tmux,
                detach,
                no_interactive,
                agent_args: extra,
            },
        ),
{
    let read = with_arguments(Verb::Run, nothing_read(), before)->Ok_0;
    lemma_nothing_passed_on_yet(nothing_read(), before);
    assert(before + seq!["--"@] + extra =~= before + (seq!["--"@] + extra));
    lemma_read_on(Verb::Run, nothing_read(), before, seq!["--"@] + extra);
    let literal = ArgumentsModel { literal: true, ..read };
    assert(with_argument(Verb::Run, read, "--"@) == Ok::<ArgumentsModel, CliError>(literal));
    assert((seq!["--"@] + extra).skip(1) =~= extra);
    assert((seq!["--"@] + extra)[0] == "--"@);
    lemma_literal(literal, extra);
    assert(literal.rest + extra =~= extra);
}

/// The message of a prompt is taken word for word: behind `--` always, and
/// otherwise unless it starts with a dash.
pub proof fn messages_are_taken_word_for_word(worktree: Seq<char>, message: Seq<char>)
    requires
        !text::starts_with(worktree, "-"@),
    ensures
        parsed(Verb::Prompt, seq![worktree, "--"@, message]) == Ok::<CommandLine, CliError>(
            CommandLine::Prompt { worktree, message },
        ),
        !text::starts_with(message, "-"@) ==> parsed(Verb::Prompt, seq![worktree, message]) == Ok::<
            CommandLine,
            CliError,
        >(CommandLine::Prompt { worktree, message }),
{
    reveal_with_fuel(with_arguments, 4);
    lemma_plain_name(worktree);
    let named = ArgumentsModel { plain: seq![worktree], ..nothing_read() };
    assert(nothing_read().plain.push(worktree) =~= seq![worktree]);
    assert(with_argument(Verb::Prompt, nothing_read(), worktree) == Ok::<ArgumentsModel, CliError>(
        named,
    ));
    let three = seq![worktree, "--"@, message];
    assert(three.skip(1) =~= seq!["--"@, message]);
    assert(seq!["--"@, message].skip(1) =~= seq![message]);
    assert(seq![message].skip(1) =~= Seq::<Seq<char>>::empty());
    assert(named.plain.push(message) =~= seq![worktree, message]);
    assert(seq![worktree, message].skip(1) =~= seq![message]);
    if !text::starts_with(message, "-"@) {
        lemma_plain_name(message);
    }
}

/// A removal can be forced before or behind the name of the worktree.
pub proof fn force_goes_on_either_side(name: Seq<char>)
    requires
        !text::starts_with(name, "-"@),
    ensures
        parsed(Verb::Remove, seq![name, "--force"@]) == Ok::<CommandLine, CliError>(
            CommandLine::Remove { name, force: true },
        ),
        parsed(Verb::Remove, seq!["--force"@, name]) == Ok::<CommandLine, CliError>(
            CommandLine::Remove { name, force: true },
        ),
{
    reveal_strlit("-");
    reveal_strlit("--");
    reveal_strlit("--force");
    reveal_strlit("force");
    reveal_strlit("help");
    reveal_with_fuel(with_arguments, 3);
    let flag = "--force"@;
    lemma_plain_name(name);
    assert(flag.take(2) =~= "--"@);
    assert(flag.skip(2) =~= "force"@);
    text::lemma_find("force"@, '=');
    assert(text::split_once("force"@, '=') is None) by {
        assert(!"force"@.contains('='));
    }
    assert("force"@.len() != "help"@.len());
    assert(long_flag(Verb::Remove, "force"@) == Some(Flag::Force));
    let one = seq![name, flag];
    assert(one.skip(1) =~= seq![flag]);
    assert(seq![flag].skip(1) =~= Seq::<Seq<char>>::empty());
    let two = seq![flag, name];
    assert(two.skip(1) =~= seq![name]);
    assert(seq![name].skip(1) =~= Seq::<Seq<char>>::empty());
    let named = ArgumentsModel { plain: seq![name], ..nothing_read() };
    assert(nothing_read().plain.push(name) =~= seq![name]);
    assert(with_argument(Verb::Remove, nothing_read(), name) == Ok::<ArgumentsModel, CliError>(
        named,
    ));
    let forced = ArgumentsModel { force: true, ..nothing_read() };
    assert(with_argument(Verb::Remove, nothing_read(), flag) == Ok::<ArgumentsModel, CliError>(
        forced,
    ));
}

/// A word that does not start with a dash is no option.
proof fn lemma_plain_name(name: Seq<char>)
    requires
        !text::starts_with(name, "-"@),
    ensures
        !text::starts_with(name, "--"@),
        name != "--"@,
        name != "-"@,
{
    reveal_strlit("-");
    reveal_strlit("--");
    if text::starts_with(name, "--"@) {
        assert(name.take(2)[0] == '-');
        assert(name.take(1) =~= "-"@);
    }
    if name == "-"@ || name == "--"@ {
        assert(name.take(1) =~= "-"@);
    }
}

proof fn lemma_verbs()
    ensures
        verb_of("setup"@) == Some(Verb::Setup),
        verb_of("migrate"@) == Some(Verb::Migrate),
        verb_of("run"@) == Some(Verb::Run),
        verb_of("edit"@) == Some(Verb::Edit),
        verb_of("attach"@) == Some(Verb::Attach),
        verb_of("prompt"@) == Some(Verb::Prompt),
        verb_of("list"@) == Some(Verb::List),
        verb_of("path"@) == Some(Verb::Path),
        verb_of("remove"@) == Some(Verb::Remove),
{
    reveal_strlit("setup");
    reveal_strlit("migrate");
    reveal_strlit("run");
    reveal_strlit("edit");
    reveal_strlit("attach");
    reveal_strlit("prompt");
    reveal_strlit("list");
    reveal_strlit("path");
    reveal_strlit("remove");
    assert("setup"@[0] == 's' && "migrate"@[0] == 'm' && "run"@[0] == 'r');
    assert("edit"@[0] == 'e' && "attach"@[0] == 'a' && "prompt"@[0] == 'p');
    assert("list"@[0] == 'l' && "path"@[0] == 'p' && "remove"@[0] == 'r');
    assert("path"@.len() == 4 && "prompt"@.len() == 6);
    assert("run"@.len() == 3 && "remove"@.len() == 6);
}

proof fn lemma_plain_first(word: Seq<char>)
    requires
        !text::starts_with(word, "-"@),
    ensures
        word != "--help"@,
        word != "--version"@,
        !text::starts_with(word, "-h"@),
        !text::starts_with(word, "-V"@),
{
    reveal_strlit("-");
    reveal_strlit("--help");
    reveal_strlit("--version");
    reveal_strlit("-h");
    reveal_strlit("-V");
    if word.len() > 0 {
        assert(word.take(1) =~= seq![word[0]]);
        assert("-"@ =~= seq!['-']);
        assert(word[0] != '-') by {
            if word[0] == '-' {
                assert(word.take(1) =~= "-"@);
            }
        }
    }
    if text::starts_with(word, "-h"@) {
        assert(word.take(2)[0] == '-');
    }
    if text::starts_with(word, "-V"@) {
        assert(word.take(2)[0] == '-');
    }
}

/// What the word of a command stands for.
pub open spec fn is_word_of(word: Seq<char>, verb: Verb) -> bool {
    match verb {
        Verb::Setup => word == "setup"@,
        Verb::Migrate => word == "migrate"@,
        Verb::Run => word == "run"@,
        Verb::Edit => word == "edit"@,
        Verb::Attach => word == "attach"@,
        Verb::Prompt => word == "prompt"@,
        Verb::List => word == "list"@,
        Verb::Path => word == "path"@,
        Verb::Remove => word == "remove"@,
    }
}

/// The first word says which command it is, and the rest is read for that command.
pub proof fn commands_are_chosen_by_their_word(
    word: Seq<char>,
    verb: Verb,
    arguments: Seq<Seq<char>>,
)
    requires
        is_word_of(word, verb),
    ensures
        command_line(seq![word] + arguments) == parsed(verb, arguments),
{
    lemma_verbs();
    reveal_strlit("-");
    reveal_strlit("help");
    reveal_strlit("setup");
    reveal_strlit("migrate");
    reveal_strlit("run");
    reveal_strlit("edit");
    reveal_strlit("attach");
    reveal_strlit("prompt");
    reveal_strlit("list");
    reveal_strlit("path");
    reveal_strlit("remove");
    assert(word[0] != '-' && word[0] != 'h');
    assert(!text::starts_with(word, "-"@)) by {
        if text::starts_with(word, "-"@) {
            assert(word.take(1)[0] == word[0]);
        }
    }
    assert("help"@[0] == 'h');
    lemma_plain_first(word);
    let all = seq![word] + arguments;
    assert(all[0] == word);
    assert(all.skip(1) =~= arguments);
}

/// A line without a command, or with a word that is none, is refused; help and version are
/// shown to whoever asks for them.
pub proof fn other_lines_are_refused(word: Seq<char>, arguments: Seq<Seq<char>>)
    ensures
        command_line(Seq::empty()) == Err::<CommandLine, CliError>(CliError::Usage),
        command_line(seq!["--help"@] + arguments) == Err::<CommandLine, CliError>(CliError::Help),
        command_line(seq!["--version"@] + arguments) == Err::<CommandLine, CliError>(
            CliError::Version,
        ),
        command_line(seq!["-h"@] + arguments) == Err::<CommandLine, CliError>(CliError::Help),
        command_line(seq!["-V"@] + arguments) == Err::<CommandLine, CliError>(CliError::Version),
        command_line(seq!["help"@]) == Err::<CommandLine, CliError>(CliError::Help),
        !text::starts_with(word, "-"@) && word != "help"@ && (forall|verb: Verb| !#[trigger]
            is_word_of(word, verb)) ==> command_line(seq![word] + arguments) == Err::<
            CommandLine,
            CliError,
        >(CliError::Usage),
{
    reveal_strlit("--help");
    reveal_strlit("--version");
    reveal_strlit("-h");
    reveal_strlit("-V");
    reveal_strlit("help");
    assert((seq!["--help"@] + arguments)[0] == "--help"@);
    assert((seq!["--version"@] + arguments)[0] == "--version"@);
    assert("--help"@.len() != "--version"@.len());
    assert((seq!["-h"@] + arguments)[0] == "-h"@);
    assert("-h"@.take(2) =~= "-h"@);
    assert((seq!["-V"@] + arguments)[0] == "-V"@);
    assert("-V"@.take(2) =~= "-V"@);
    assert("-V"@[1] == 'V' && "-h"@[1] == 'h');
    assert("help"@[0] == 'h');
    assert(!text::starts_with("help"@, "-"@)) by {
        reveal_strlit("-");
        if text::starts_with("help"@, "-"@) {
            assert("help"@.take(1)[0] == 'h');
        }
    }
    lemma_plain_first("help"@);
    if !text::starts_with(word, "-"@) {
        lemma_plain_first(word);
    }
    if forall|verb: Verb| !#[trigger] is_word_of(word, verb) {
        assert(!is_word_of(word, Verb::Setup) && !is_word_of(word, Verb::Migrate));
        assert(!is_word_of(word, Verb::Run) && !is_word_of(word, Verb::Edit));
        assert(!is_word_of(word, Verb::Attach) && !is_word_of(word, Verb::Prompt));
        assert(!is_word_of(word, Verb::List) && !is_word_of(word, Verb::Path));
        assert(!is_word_of(word, Verb::Remove));
        assert((seq![word] + arguments)[0] == word);
    }
}

/// Arguments are read one after the other, from nothing, and what they amount to is what
/// was read; the first that is wrong decides.
pub proof fn arguments_are_read_one_after_the_other(
    verb: Verb,
    read: ArgumentsModel,
    first: Seq<Seq<char>>,
    argument: Seq<char>,
)
    ensures
        with_arguments(verb, read, Seq::empty()) == Ok::<ArgumentsModel, CliError>(read),
        with_arguments(verb, read, first.push(argument)) == (match with_arguments(
            verb,
            read,
            first,
        ) {
            Ok(after) => with_argument(verb, after, argument),
            Err(e) => Err(e),
        }),
        parsed(verb, first) == (match with_arguments(verb, nothing_read(), first) {
            Ok(after) => completed(verb, after),
            Err(e) => Err(e),
        }),
{
    lemma_read_on(verb, read, first, seq![argument]);
    assert(first + seq![argument] =~= first.push(argument));
    if let Ok(after) = with_arguments(verb, read, first) {
        assert(seq![argument].skip(1) =~= Seq::<Seq<char>>::empty());
        assert(seq![argument][0] == argument);
        if let Ok(last) = with_argument(verb, after, argument) {
            assert(with_arguments(verb, last, seq![argument].skip(1)) == Ok::<
                ArgumentsModel,
                CliError,
            >(last));
        }
    }
}

/// Before anything is read, nothing is asked for.
pub proof fn nothing_is_asked_for_at_first()
    ensures
        ({
            let read = nothing_read();
            &&& !read.dry_run && !read.tmux && !read.detach && !read.no_interactive
            &&& !read.porcelain && !read.zero && !read.force && !read.literal && !read.pending
            &&& read.agent is None && read.plain.len() == 0 && read.rest.len() == 0
        }),
{
}

/// An option by its long name, with nothing behind it.
proof fn lemma_long(verb: Verb, read: ArgumentsModel, argument: Seq<char>, name: Seq<char>, flag: Flag)
    requires
        !read.literal,
        argument == "--"@ + name,
        name.len() > 0,
        !name.contains('='),
        long_flag(verb, name) == Some(flag),
    ensures
        with_argument(verb, read, argument) == with_flag(read, flag),
{
    reveal_strlit("--");
    assert(argument.len() > 2);
    assert(argument.take(2) =~= "--"@);
    assert(argument.skip(2) =~= name);
    text::lemma_find(name, '=');
}

proof fn lemma_long_names()
    ensures
        long_flag(Verb::Migrate, "dry-run"@) == Some(Flag::DryRun),
        long_flag(Verb::Run, "agent"@) == Some(Flag::Agent),
        long_flag(Verb::Run, "tmux"@) == Some(Flag::Tmux),
        long_flag(Verb::Run, "detach"@) == Some(Flag::Detach),
        long_flag(Verb::Run, "no-interactive"@) == Some(Flag::NoInteractive),
        long_flag(Verb::List, "porcelain"@) == Some(Flag::Porcelain),
        long_flag(Verb::Remove, "force"@) == Some(Flag::Force),
        "--dry-run"@ == "--"@ + "dry-run"@,
        "--agent"@ == "--"@ + "agent"@,
        "--tmux"@ == "--"@ + "tmux"@,
        "--detach"@ == "--"@ + "detach"@,
        "--no-interactive"@ == "--"@ + "no-interactive"@,
        "--porcelain"@ == "--"@ + "porcelain"@,
        "--force"@ == "--"@ + "force"@,
        "--help"@ == "--"@ + "help"@,
        !"dry-run"@.contains('=') && "dry-run"@.len() > 0,
        !"agent"@.contains('=') && "agent"@.len() > 0,
        !"tmux"@.contains('=') && "tmux"@.len() > 0,
        !"detach"@.contains('=') && "detach"@.len() > 0,
        !"no-interactive"@.contains('=') && "no-interactive"@.len() > 0,
        !"porcelain"@.contains('=') && "porcelain"@.len() > 0,
        !"force"@.contains('=') && "force"@.len() > 0,
        !"help"@.contains('=') && "help"@.len() > 0,
{
    reveal_strlit("--");
    reveal_strlit("help");
    reveal_strlit("dry-run");
    reveal_strlit("agent");
    reveal_strlit("tmux");
    reveal_strlit("detach");
    reveal_strlit("no-interactive");
    reveal_strlit("porcelain");
    reveal_strlit("force");
    reveal_strlit("--help");
    reveal_strlit("--dry-run");
    reveal_strlit("--agent");
    reveal_strlit("--tmux");
    reveal_strlit("--detach");
    reveal_strlit("--no-interactive");
    reveal_strlit("--porcelain");
    reveal_strlit("--force");
    assert("help"@[0] == 'h' && "dry-run"@[0] == 'd' && "agent"@[0] == 'a' && "tmux"@[0] == 't');
    assert("detach"@[0] == 'd' && "no-interactive"@[0] == 'n' && "porcelain"@[0] == 'p');
    assert("force"@[0] == 'f');
    assert("--dry-run"@ =~= "--"@ + "dry-run"@);
    assert("--agent"@ =~= "--"@ + "agent"@);
    assert("--tmux"@ =~= "--"@ + "tmux"@);
    assert("--detach"@ =~= "--"@ + "detach"@);
    assert("--no-interactive"@ =~= "--"@ + "no-interactive"@);
    assert("--porcelain"@ =~= "--"@ + "porcelain"@);
    assert("--force"@ =~= "--"@ + "force"@);
    assert("--help"@ =~= "--"@ + "help"@);
}

/// The outcome of an option that may be given once: it is set, or it was given before.
pub open spec fn once(
    given: bool,
    after: ArgumentsModel,
) -> Result<ArgumentsModel, CliError> {
    if given {
        Err(CliError::Usage)
    } else {
        Ok(after)
    }
}

/// Every option sets what it is for, once, and nothing else.
pub proof fn options_set_what_they_are_for(read: ArgumentsModel, verb: Verb)
    requires
        !read.literal,
        !read.pending,
    ensures
        with_argument(Verb::Migrate, read, "--dry-run"@) == once(
            read.dry_run,
            ArgumentsModel { dry_run: true, ..read },
        ),
        with_argument(Verb::Run, read, "--tmux"@) == once(
            read.tmux,
            ArgumentsModel { tmux: true, ..read },
        ),
        with_argument(Verb::Run, read, "--detach"@) == once(
            read.detach,
            ArgumentsModel { detach: true, ..read },
        ),
        with_argument(Verb::Run, read, "--no-interactive"@) == once(
            read.no_interactive,
            ArgumentsModel { no_interactive: true, ..read },
        ),
        with_argument(Verb::List, read, "--porcelain"@) == once(
            read.porcelain,
            ArgumentsModel { porcelain: true, ..read },
        ),
        with_argument(Verb::Remove, read, "--force"@) == once(
            read.force,
            ArgumentsModel { force: true, ..read },
        ),
        with_argument(verb, read, "--help"@) == Err::<ArgumentsModel, CliError>(CliError::Help),
{
    lemma_long_names();
    lemma_long(Verb::Migrate, read, "--dry-run"@, "dry-run"@, Flag::DryRun);
    lemma_long(Verb::Run, read, "--tmux"@, "tmux"@, Flag::Tmux);
    lemma_long(Verb::Run, read, "--detach"@, "detach"@, Flag::Detach);
    lemma_long(Verb::Run, read, "--no-interactive"@, "no-interactive"@, Flag::NoInteractive);
    lemma_long(Verb::List, read, "--porcelain"@, "porcelain"@, Flag::Porcelain);
    lemma_long(Verb::Remove, read, "--force"@, "force"@, Flag::Force);
    lemma_long(verb, read, "--help"@, "help"@, Flag::Help);
}

/// A single letter behind a dash.
proof fn lemma_letter(verb: Verb, read: ArgumentsModel, letter: char, flag: Flag)
    requires
        !read.literal,
        letter != '-',
        short_flag(verb, letter) == Some(flag),
    ensures
        with_argument(verb, read, seq!['-', letter]) == with_flag(read, flag) || flag == Flag::Agent,
        flag == Flag::Agent && !read.pending ==> with_argument(verb, read, seq!['-', letter])
            == with_flag(read, flag),
{
    reveal_strlit("-");
    reveal_strlit("--");
    let argument = seq!['-', letter];
    let letters = argument.skip(1);
    assert(letters =~= seq![letter]);
    assert(argument.take(1) =~= "-"@);
    assert(argument.len() == 2);
    assert(!text::starts_with(argument, "--"@)) by {
        if text::starts_with(argument, "--"@) {
            assert(argument.take(2)[1] == letter);
        }
    }
    assert(argument != "--"@);
    assert(argument != "-"@);
    assert(letters.skip(1) =~= Seq::<char>::empty());
    reveal_with_fuel(with_letters, 2);
    assert(all_known(verb, letters));
    if let Ok(after) = with_flag(read, flag) {
        assert(with_letters(verb, after, letters.skip(1)) == Ok::<ArgumentsModel, CliError>(after));
    }
}

/// The options that have a letter do the same by it.
pub proof fn letters_stand_for_options(read: ArgumentsModel, verb: Verb)
    requires
        !read.literal,
        !read.pending,
    ensures
        with_argument(Verb::Run, read, seq!['-', 'd']) == with_argument(
            Verb::Run,
            read,
            "--detach"@,
        ),
        with_argument(Verb::Run, read, seq!['-', 'a']) == with_argument(
            Verb::Run,
            read,
            "--agent"@,
        ),
        with_argument(Verb::List, read, seq!['-', 'z']) == once(
            read.zero,
            ArgumentsModel { zero: true, ..read },
        ),
        with_argument(Verb::Path, read, seq!['-', '0']) == once(
            read.zero,
            ArgumentsModel { zero: true, ..read },
        ),
        with_argument(verb, read, seq!['-', 'h']) == Err::<ArgumentsModel, CliError>(
            CliError::Help,
        ),
{
    lemma_long_names();
    lemma_long(Verb::Run, read, "--detach"@, "detach"@, Flag::Detach);
    lemma_long(Verb::Run, read, "--agent"@, "agent"@, Flag::Agent);
    lemma_letter(Verb::Run, read, 'd', Flag::Detach);
    lemma_letter(Verb::Run, read, 'a', Flag::Agent);
    lemma_letter(Verb::List, read, 'z', Flag::Zero);
    lemma_letter(Verb::Path, read, '0', Flag::Zero);
    lemma_letter(verb, read, 'h', Flag::Help);
}

/// The agent of a run is the word behind its option, or the value that is joined to it,
/// and may be given once.
pub proof fn agents_are_given_by_name(read: ArgumentsModel, name: Seq<char>)
    requires
        !read.literal,
        !read.pending,
    ensures
        ({
            let set = once(
                read.agent is Some,
                ArgumentsModel { agent: Some(name), pending: false, ..read },
            );
            &&& with_argument(Verb::Run, read, "--agent="@ + name) == set
            &&& with_argument(Verb::Run, read, "--agent"@) == Ok::<ArgumentsModel, CliError>(
                ArgumentsModel { pending: true, ..read },
            )
            &&& !text::starts_with(name, "-"@) ==> with_argument(
                Verb::Run,
                ArgumentsModel { pending: true, ..read },
                name,
            ) == set
        }),
{
    lemma_long_names();
    lemma_long(Verb::Run, read, "--agent"@, "agent"@, Flag::Agent);
    reveal_strlit("--");
    reveal_strlit("agent");
    reveal_strlit("--agent=");
    let argument = "--agent="@ + name;
    let word = "agent"@ + seq!['='] + name;
    assert(argument =~= "--"@ + word);
    assert(argument.len() > 2);
    assert(argument.take(2) =~= "--"@);
    assert(argument.skip(2) =~= word);
    text::splitting_undoes_joining("agent"@, name, '=');
    let waiting = ArgumentsModel { pending: true, ..read };
    if !text::starts_with(name, "-"@) {
        lemma_plain_name(name);
        assert(with_argument(Verb::Run, waiting, name) == with_agent(waiting, name));
    }
}

/// A word that is no option is kept in its place, as long as the command takes one more;
/// behind `--` every word is, and a run passes it on. Too many are refused.
pub proof fn words_are_kept_in_their_place(verb: Verb, read: ArgumentsModel, word: Seq<char>)
    requires
        !read.pending,
        read.literal || !text::starts_with(word, "-"@),
    ensures
        ({
            let room: int = match verb {
                Verb::Setup => 0,
                Verb::Migrate => 0,
                Verb::List => 0,
                Verb::Prompt => 2,
                _ => 1,
            };
            with_argument(verb, read, word) == (if verb == Verb::Run && read.literal {
                Ok::<ArgumentsModel, CliError>(
                    ArgumentsModel { rest: read.rest.push(word), ..read },
                )
            } else if read.plain.len() < room {
                Ok::<ArgumentsModel, CliError>(
                    ArgumentsModel { plain: read.plain.push(word), ..read },
                )
            } else {
                Err::<ArgumentsModel, CliError>(CliError::Usage)
            })
        }),
{
    if !read.literal {
        lemma_plain_name(word);
    }
}

/// What was read amounts to the command that was meant, with everything that was given for
/// it; a command that lacks something, and an option that lacks its value, are refused.
pub proof fn commands_are_what_was_read(read: ArgumentsModel)
    ensures
        ({
            let plain = read.plain;
            let usage = Err::<CommandLine, CliError>(CliError::Usage);
            let ok = |line: CommandLine| Ok::<CommandLine, CliError>(line);
            &&& read.pending ==> forall|verb: Verb| #[trigger] completed(verb, read) == usage
            &&& !read.pending ==> {
                &&& completed(Verb::Setup, read) == ok(CommandLine::Setup)
                &&& completed(Verb::Migrate, read) == ok(
                    CommandLine::Migrate { dry_run: read.dry_run },
                )
                &&& completed(Verb::Run, read) == ok(
                    CommandLine::Run {
                        name: if plain.len() > 0 {
                            Some(plain[0])
                        } else {
                            None
                        },
                        agent: read.agent,
                        tmux: read.tmux,
                        detach: read.detach,
                        no_interactive: read.no_interactive,
                        agent_args: read.rest,
                    },
                )
                &&& plain.len() == 0 ==> completed(Verb::Edit, read) == usage && completed(
                    Verb::Attach,
                    read,
                ) == usage && completed(Verb::Path, read) == usage && completed(
                    Verb::Remove,
                    read,
                ) == usage
                &&& plain.len() < 2 ==> completed(Verb::Prompt, read) == usage
                &&& plain.len() > 0 ==> {
                    &&& completed(Verb::Edit, read) == ok(CommandLine::Edit { worktree: plain[0] })
                    &&& completed(Verb::Attach, read) == ok(CommandLine::Attach { name: plain[0] })
                    &&& completed(Verb::Path, read) == ok(
                        CommandLine::Path { name: plain[0], zero: read.zero },
                    )
                    &&& completed(Verb::Remove, read) == ok(
                        CommandLine::Remove { name: plain[0], force: read.force },
                    )
                }
                &&& plain.len() >= 2 ==> completed(Verb::Prompt, read) == ok(
                    CommandLine::Prompt { worktree: plain[0], message: plain[1] },
                )
                &&& completed(Verb::List, read) == (if read.zero && !read.porcelain {
                    usage
                } else {
                    ok(CommandLine::List { porcelain: read.porcelain, zero: read.zero })
                })
            }
        }),
{
}

/// An option that a command does not have is refused, unless a message is expected.
pub proof fn unknown_options_are_refused(verb: Verb, read: ArgumentsModel, name: Seq<char>)
    requires
        !read.literal,
        !(verb == Verb::Prompt && read.plain.len() == 1),
        name.len() > 0,
        !name.contains('='),
        name != "help"@,
        verb == Verb::Migrate ==> name != "dry-run"@,
        verb == Verb::Run ==> name != "agent"@ && name != "tmux"@ && name != "detach"@ && name
            != "no-interactive"@,
        verb == Verb::List ==> name != "porcelain"@,
        verb == Verb::Remove ==> name != "force"@,
    ensures
        with_argument(verb, read, "--"@ + name) == Err::<ArgumentsModel, CliError>(
            CliError::Usage,
        ),
{
    reveal_strlit("--");
    let argument = "--"@ + name;
    assert(argument.len() > 2);
    assert(argument.take(2) =~= "--"@);
    assert(argument.skip(2) =~= name);
    text::lemma_find(name, '=');
}

/// The commands on a single worktree take its name and do what they say.
pub proof fn worktrees_are_named_on_the_line(name: Seq<char>)
    requires
        !text::starts_with(name, "-"@),
    ensures
        command_line(seq!["attach"@, name]) == Ok::<CommandLine, CliError>(
            CommandLine::Attach { name },
        ),
        command_line(seq!["edit"@, name]) == Ok::<CommandLine, CliError>(
            CommandLine::Edit { worktree: name },
        ),
        command_line(seq!["path"@, name]) == Ok::<CommandLine, CliError>(
            CommandLine::Path { name, zero: false },
        ),
        command_line(seq!["remove"@, name]) == Ok::<CommandLine, CliError>(
            CommandLine::Remove { name, force: false },
        ),
        command_line(seq!["run"@, name]) == Ok::<CommandLine, CliError>(
            CommandLine::Run {
                name: Some(name),
                agent: None,
                tmux: false,
                detach: false,
                no_interactive: false,
                agent_args: Seq::empty(),
            },
        ),
{
    lemma_named(Verb::Attach, name);
    lemma_named(Verb::Edit, name);
    lemma_named(Verb::Path, name);
    lemma_named(Verb::Remove, name);
    lemma_named(Verb::Run, name);
    commands_are_chosen_by_their_word("attach"@, Verb::Attach, seq![name]);
    commands_are_chosen_by_their_word("edit"@, Verb::Edit, seq![name]);
    commands_are_chosen_by_their_word("path"@, Verb::Path, seq![name]);
    commands_are_chosen_by_their_word("remove"@, Verb::Remove, seq![name]);
    commands_are_chosen_by_their_word("run"@, Verb::Run, seq![name]);
    assert(seq!["attach"@] + seq![name] =~= seq!["attach"@, name]);
    assert(seq!["edit"@] + seq![name] =~= seq!["edit"@, name]);
    assert(seq!["path"@] + seq![name] =~= seq!["path"@, name]);
    assert(seq!["remove"@] + seq![name] =~= seq!["remove"@, name]);
    assert(seq!["run"@] + seq![name] =~= seq!["run"@, name]);
}

proof fn lemma_named(verb: Verb, name: Seq<char>)
    requires
        !text::starts_with(name, "-"@),
        verb == Verb::Attach || verb == Verb::Edit || verb == Verb::Path || verb == Verb::Remove
            || verb == Verb::Run,
    ensures
        with_arguments(verb, nothing_read(), seq![name]) == Ok::<ArgumentsModel, CliError>(
            ArgumentsModel { plain: seq![name], ..nothing_read() },
        ),
{
    lemma_plain_name(name);
    let none = Seq::<Seq<char>>::empty();
    arguments_are_read_one_after_the_other(verb, nothing_read(), none, name);
    assert(none.push(name) =~= seq![name]);
    assert(nothing_read().plain.push(name) =~= seq![name]);
}

/// A run of the agent that is named, in the worktree that is named, passes on to it all
/// that stands behind `--`.
pub proof fn runs_are_given_agent_name_and_arguments(
    agent: Seq<char>,
    name: Seq<char>,
    extra: Seq<Seq<char>>,
)
    requires
        !text::starts_with(name, "-"@),
    ensures
        command_line(seq!["run"@, "--agent="@ + agent, name] + seq!["--"@] + extra) == Ok::<
            CommandLine,
            CliError,
        >(
            CommandLine::Run {
                name: Some(name),
                agent: Some(agent),
                tmux: false,
                detach: false,
                no_interactive: false,
                agent_args: extra,
            },
        ),
{
    let option = "--agent="@ + agent;
    let none = Seq::<Seq<char>>::empty();
    let before = seq![option, name];
    let with_option = ArgumentsModel { agent: Some(agent), ..nothing_read() };
    let with_name = ArgumentsModel { plain: seq![name], ..with_option };
    agents_are_given_by_name(nothing_read(), agent);
    arguments_are_read_one_after_the_other(Verb::Run, nothing_read(), none, option);
    assert(none.push(option) =~= seq![option]);
    words_are_kept_in_their_place(Verb::Run, with_option, name);
    arguments_are_read_one_after_the_other(Verb::Run, nothing_read(), seq![option], name);
    assert(seq![option].push(name) =~= before);
    assert(with_option.plain.push(name) =~= seq![name]);
    assert(with_arguments(Verb::Run, nothing_read(), before) == Ok::<ArgumentsModel, CliError>(
        with_name,
    ));
    literal_arguments_are_passed_on(before, extra);
    commands_are_chosen_by_their_word("run"@, Verb::Run, before + seq!["--"@] + extra);
    assert(seq!["run"@] + (before + seq!["--"@] + extra) =~= seq!["run"@, option, name] + seq![
        "--"@,
    ] + extra);
}

} // verus!
