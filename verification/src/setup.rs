//! Setting up agents: a dialog that asks for names, commands and arguments until
//! an empty name ends it.

use vstd::prelude::*;
#[allow(unused_imports)]
use vstd::string::*;

use crate::arguments;
use crate::arguments::parse_agent_arguments;
use crate::bytes;
use crate::bytes::{copy_bytes, lossy_text};
use crate::config;
use crate::config::{quoted, Agent, AgentModel, Config, ConfigModel};
use crate::error;
use crate::error::{message3, IoFailure, ToolError};
use crate::layout::DavidPaths;
use crate::text;
use crate::text::trimmed;

verus! {

/// What is asked for next.
#[derive(Clone, Copy, Debug, PartialEq, Eq, Structural)]
pub enum Question {
    Name,
    Command,
    Arguments,
}

pub open spec fn question_text(question: Question) -> Seq<char> {
    match question {
        Question::Name => "Agent name (Enter to finish)"@,
        Question::Command => "Command"@,
        Question::Arguments => "Arguments (optional)"@,
    }
}

impl Question {
    pub fn prompt(self) -> (text: &'static str)
        ensures
            text@ == question_text(self),
    {
        match self {
            Question::Name => "Agent name (Enter to finish)",
            Question::Command => "Command",
            Question::Arguments => "Arguments (optional)",
        }
    }

    /// Everything but a command may be left out.
    pub fn allow_empty(self) -> (allowed: bool)
        ensures
            allowed == (self != Question::Command),
    {
        self != Question::Command
    }
}

/// What an answer leads to.
#[derive(Debug)]
pub enum SetupEvent {
    /// The next question.
    Ask,
    /// The same question once more, for this reason.
    Retry(ToolError),
    /// An agent was added: show them all, then go on.
    Added,
    /// No more agents.
    Finished,
    Failed(ToolError),
}

/// A dialog under way.
#[derive(Debug)]
pub struct Setup {
    /// Where the configuration goes.
    pub path: Vec<u8>,
    pub config: Config,
    pub question: Question,
    pub name: String,
    pub command: String,
}

impl DavidPaths {
    /// Begins to set up agents, with those that are configured already.
    pub fn setup(&self, existing: Config) -> (setup: Setup)
        ensures
            setup.path@ == self@.config,
            setup.config == existing,
            setup.question == Question::Name,
            setup.name@.len() == 0,
            setup.command@.len() == 0,
    {
        Setup {
            path: copy_bytes(self.config_path()),
            config: existing,
            question: Question::Name,
            name: String::new(),
            command: String::new(),
        }
    }
}

impl Setup {
    pub open spec fn well_formed(&self) -> bool {
        self.config.well_formed()
    }

    /// The configuration with the agent that is being entered.
    pub open spec fn candidate(&self, args: Seq<Seq<char>>) -> ConfigModel {
        ConfigModel {
            agents: config::put(
                self.config@.agents,
                self.name@,
                AgentModel { command: self.command@, args },
            ),
            ..self.config@
        }
    }

    /// Takes the answer to the current question.
    pub fn answer(&mut self, line: &str) -> (event: SetupEvent)
        requires
            old(self).well_formed(),
        ensures
            final(self).well_formed(),
            final(self).path == old(self).path,
            match old(self).question {
                Question::Name => {
                    &&& final(self).config == old(self).config
                    &&& if text::trim(line@).len() == 0 {
                        event is Finished && *final(self) == *old(self)
                    } else {
                        event is Ask && final(self).question == Question::Command
                            && final(self).name@ == text::trim(line@) && final(self).command
                            == old(self).command
                    }
                },
                Question::Command => {
                    &&& final(self).config == old(self).config
                    &&& final(self).name == old(self).name
                    &&& final(self).command@ == text::trim(line@)
                    &&& final(self).question == Question::Arguments
                    &&& event is Ask
                },
                Question::Arguments => {
                    &&& final(self).name == old(self).name
                    &&& final(self).command == old(self).command
                    &&& match arguments::shell_words_of(line@) {
                        None => {
                            &&& final(self).config == old(self).config
                            &&& final(self).question == Question::Arguments
                            &&& event matches SetupEvent::Retry(e) && error::is_message(
                                e,
                                "could not parse agent arguments: "@ + "missing closing quote"@,
                            )
                        },
                        Some(args) => match config::config_problem(old(self).candidate(args)) {
                            None => {
                                &&& final(self).config@ == old(self).candidate(args)
                                &&& final(self).question == Question::Name
                                &&& event is Added
                            },
                            Some(problem) => {
                                &&& final(self).config@ == old(self).config@
                                &&& final(self).question == Question::Arguments
                                &&& event matches SetupEvent::Failed(e) && error::is_message(
                                    e,
                                    problem,
                                )
                            },
                        },
                    }
                },
            },
    {
        match self.question {
            Question::Name => {
                let name: String = trimmed(line);
                if name.as_str().is_empty() {
                    return SetupEvent::Finished;
                }
                self.name = name;
                self.question = Question::Command;
                SetupEvent::Ask
            },
            Question::Command => {
                self.command = trimmed(line);
                self.question = Question::Arguments;
                SetupEvent::Ask
            },
            Question::Arguments => {
                let args: Vec<String> = match parse_agent_arguments(line) {
                    Ok(args) => args,
                    Err(e) => {
                        return SetupEvent::Retry(e);
                    },
                };
                let agent: Agent = Agent { command: self.command.clone(), args };
                let name: String = self.name.clone();
                match self.config.add_or_replace(name, agent) {
                    Ok(()) => {
                        self.question = Question::Name;
                        SetupEvent::Added
                    },
                    Err(e) => SetupEvent::Failed(e),
                }
            },
        }
    }

    /// Whether the configuration may be written, and what to say when it was.
    pub fn complete(&self) -> (result: Result<String, ToolError>)
        ensures
            match result {
                Ok(notice) => config::config_problem(self.config@) is None && notice@
                    == "Agent configuration written to "@ + bytes::utf8_lossy(self.path@),
                Err(e) => config::config_problem(self.config@) matches Some(problem)
                    && error::is_message(e, problem),
            },
    {
        match self.config.validate() {
            Ok(()) => {
                let mut notice: String = "Agent configuration written to ".to_owned();
                notice.append(lossy_text(self.path.as_slice()).as_str());
                Ok(notice)
            },
            Err(e) => Err(e),
        }
    }
}

/// A list of texts in quotes, with brackets around it.
pub open spec fn quoted_list(items: Seq<Seq<char>>) -> Seq<char> {
    "["@ + quoted_items(items) + "]"@
}

pub open spec fn quoted_items(items: Seq<Seq<char>>) -> Seq<char>
    decreases items.len(),
{
    if items.len() == 0 {
        Seq::empty()
    } else if items.len() == 1 {
        config::debug_text(items[0])
    } else {
        quoted_items(items.drop_last()) + ", "@ + config::debug_text(items.last())
    }
}

fn push_quoted_list(out: &mut String, items: &Vec<String>)
    ensures
        final(out)@ == old(out)@ + quoted_list(text::views(items@)),
{
    let ghost all = text::views(items@);
    out.append("[");
    let ghost start = out@;
    let mut i: usize = 0;
    assert(out@ =~= start + quoted_items(all.take(0)));
    while i < items.len()
        invariant
            all == text::views(items@),
            i <= items@.len(),
            out@ == start + quoted_items(all.take(i as int)),
        decreases items@.len() - i,
    {
        let ghost before = out@;
        if i > 0 {
            out.append(", ");
        }
        out.append(quoted(items[i].as_str()).as_str());
        assert(all.take(i + 1).drop_last() =~= all.take(i as int));
        assert(all.take(i + 1).last() == items@[i as int]@);
        assert(out@ =~= start + quoted_items(all.take(i + 1)));
        i = i + 1;
    }
    assert(all.take(i as int) =~= all);
    out.append("]");
    assert(out@ =~= old(out)@ + quoted_list(all));
}

/// The line for an agent.
pub open spec fn agent_line(entry: (Seq<char>, AgentModel)) -> Seq<char> {
    "  "@ + entry.0 + ": "@ + entry.1.command + " "@ + quoted_list(entry.1.args) + "\n"@
}

pub open spec fn agent_lines(agents: Seq<(Seq<char>, AgentModel)>) -> Seq<char>
    decreases agents.len(),
{
    if agents.len() == 0 {
        Seq::empty()
    } else {
        agent_lines(agents.drop_last()) + agent_line(agents.last())
    }
}

/// All agents, as they are shown during the dialog.
pub open spec fn agents_text(agents: Seq<(Seq<char>, AgentModel)>) -> Seq<char> {
    "\nConfigured agents:\n"@ + if agents.len() == 0 {
        "  (none)\n"@
    } else {
        agent_lines(agents)
    }
}

pub fn list_agents(config: &Config) -> (out: String)
    ensures
        out@ == agents_text(config@.agents),
{
    let ghost all = config@.agents;
    let mut out: String = "\nConfigured agents:\n".to_owned();
    let ghost start = out@;
    if config.agents.len() == 0 {
        out.append("  (none)\n");
        return out;
    }
    let mut i: usize = 0;
    assert(out@ =~= start + agent_lines(all.take(0)));
    while i < config.agents.len()
        invariant
            all == config@.agents,
            i <= config.agents@.len(),
            out@ == start + agent_lines(all.take(i as int)),
        decreases config.agents@.len() - i,
    {
        let ghost before = out@;
        out.append("  ");
        out.append(config.agents[i].name.as_str());
        out.append(": ");
        out.append(config.agents[i].agent.command.as_str());
        out.append(" ");
        push_quoted_list(&mut out, &config.agents[i].agent.args);
        out.append("\n");
        assert(all.take(i + 1).drop_last() =~= all.take(i as int));
        assert(all.take(i + 1).last() == config.agents@[i as int]@);
        assert(out@ =~= before + agent_line(all[i as int]));
        assert(out@ =~= start + agent_lines(all.take(i + 1)));
        i = i + 1;
    }
    assert(all.take(i as int) =~= all);
    out
}

/// The error for a configuration file that could not be read.
pub fn unreadable_config(path: &[u8], failure: IoFailure) -> (e: ToolError)
    ensures
        failure.not_found ==> error::is_message(
            e,
            "agent configuration not found at "@ + bytes::utf8_lossy(path@)
                + "; add an [agents.<name>] entry"@,
        ),
        !failure.not_found ==> e == ToolError::Io(failure),
{
    if failure.not_found {
        message3(
            "agent configuration not found at ",
            lossy_text(path).as_str(),
            "; add an [agents.<name>] entry",
        )
    } else {
        ToolError::Io(failure)
    }
}

/// An agent that is entered is there afterwards as it was entered, all other
/// agents are as they were, and the default stays.
pub proof fn entering_an_agent_keeps_the_others(
    before: Setup,
    args: Seq<Seq<char>>,
    other: Seq<char>,
)
    requires
        before.well_formed(),
    ensures
        config::lookup(before.candidate(args).agents, before.name@) == Some(
            AgentModel { command: before.command@, args },
        ),
        other != before.name@ ==> config::lookup(before.candidate(args).agents, other)
            == config::lookup(before.config@.agents, other),
        before.candidate(args).default_agent == before.config@.default_agent,
{
    let agent = AgentModel { command: before.command@, args };
    config::put_sets_one_agent(before.config@.agents, before.name@, agent, before.name@);
    config::put_sets_one_agent(before.config@.agents, before.name@, agent, other);
}

/// What is asked for, in words.
pub proof fn questions_are_asked_like_this()
    ensures
        question_text(Question::Name) == "Agent name (Enter to finish)"@,
        question_text(Question::Command) == "Command"@,
        question_text(Question::Arguments) == "Arguments (optional)"@,
{
}

/// During the dialog every agent is shown on a line of its own, in the order of the
/// configuration: its name, its command and all its arguments.
pub proof fn every_agent_is_shown(
    agents: Seq<(Seq<char>, AgentModel)>,
    name: Seq<char>,
    agent: AgentModel,
)
    ensures
        ({
            let line = "  "@ + name + ": "@ + agent.command + " ["@ + quoted_items(agent.args)
                + "]\n"@;
            &&& agents.len() > 0 ==> agents_text(agents.push((name, agent))) == agents_text(agents)
                + line
            &&& agents_text(seq![(name, agent)]) == "\nConfigured agents:\n"@ + line
            &&& agents_text(Seq::empty()) == "\nConfigured agents:\n"@ + "  (none)\n"@
        }),
{
    let entry = (name, agent);
    let line = "  "@ + name + ": "@ + agent.command + " ["@ + quoted_items(agent.args) + "]\n"@;
    reveal_strlit(" ");
    reveal_strlit("[");
    reveal_strlit(" [");
    reveal_strlit("]");
    reveal_strlit("\n");
    reveal_strlit("]\n");
    assert(" ["@ =~= " "@ + "["@);
    assert("]\n"@ =~= "]"@ + "\n"@);
    assert(agent_line(entry) =~= line);
    assert(agents.push(entry).drop_last() =~= agents);
    assert(seq![entry].drop_last() =~= Seq::<(Seq<char>, AgentModel)>::empty());
    assert(agent_lines(seq![entry].drop_last()) =~= Seq::<char>::empty());
    assert(agents_text(seq![entry]) =~= "\nConfigured agents:\n"@ + line);
    if agents.len() > 0 {
        assert(agents_text(agents.push(entry)) =~= agents_text(agents) + line);
    }
}

/// Every argument is shown in quotes, in its order, with commas between them.
pub proof fn every_argument_is_shown(items: Seq<Seq<char>>, item: Seq<char>)
    ensures
        items.len() > 0 ==> quoted_items(items.push(item)) == quoted_items(items) + ", "@
            + config::debug_text(item),
        quoted_items(seq![item]) == config::debug_text(item),
        quoted_items(Seq::empty()) == Seq::<char>::empty(),
{
    assert(items.push(item).drop_last() =~= items);
}

/// The agent that is entered goes by the name, the command and the arguments that were
/// entered.
pub proof fn agents_are_configured_as_entered(setup: Setup, args: Seq<Seq<char>>)
    requires
        setup.well_formed(),
    ensures
        setup.candidate(args).agents.contains(
            (setup.name@, AgentModel { command: setup.command@, args }),
        ),
{
    lemma_put_contains(
        setup.config@.agents,
        setup.name@,
        AgentModel { command: setup.command@, args },
    );
}

proof fn lemma_put_contains(
    agents: Seq<(Seq<char>, AgentModel)>,
    name: Seq<char>,
    agent: AgentModel,
)
    ensures
        config::put(agents, name, agent).contains((name, agent)),
    decreases agents.len(),
{
    let all = config::put(agents, name, agent);
    if agents.len() == 0 || agents[0].0 == name || text::precedes(name, agents[0].0) {
        assert(all[0] == (name, agent));
    } else {
        let rest = config::put(agents.skip(1), name, agent);
        lemma_put_contains(agents.skip(1), name, agent);
        let i = rest.index_of((name, agent));
        assert(all[i + 1] == (name, agent));
    }
}

} // verus!
