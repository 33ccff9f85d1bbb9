//! Which agent a run starts.

use vstd::prelude::*;
#[allow(unused_imports)]
use vstd::string::*;

use crate::config;
use crate::config::{Agent, AgentModel, Config, ConfigModel, NamedAgent};
use crate::text;
use crate::text::copy_texts;

verus! {

/// What a run was asked for.
#[derive(Debug)]
pub struct RunOptions {
    /// The agent to use, by name.
    pub agent: Option<String>,
    /// Arguments that go behind the configured ones.
    pub agent_args: Vec<String>,
    /// Whether a person may be asked to select an agent.
    pub interactive: bool,
    /// Whether to attach to the session.
    pub attach: bool,
}

#[derive(Debug)]
pub enum Selection {
    Chosen(NamedAgent),
    /// A person has to select.
    Pick,
    /// The agent that was asked for is not configured.
    Unknown(String),
    /// Nothing decides, and nobody may be asked.
    Unavailable,
}

#[verifier::ext_equal]
pub enum SelectionModel {
    Chosen((Seq<char>, AgentModel)),
    Pick,
    Unknown(Seq<char>),
    Unavailable,
}

impl View for Selection {
    type V = SelectionModel;

    open spec fn view(&self) -> SelectionModel {
        match self {
            Selection::Chosen(agent) => SelectionModel::Chosen(agent@),
            Selection::Pick => SelectionModel::Pick,
            Selection::Unknown(name) => SelectionModel::Unknown(name@),
            Selection::Unavailable => SelectionModel::Unavailable,
        }
    }
}

/// The name of an agent that a variable gives; an empty one gives none.
pub open spec fn environment_agent(variable: Option<Seq<char>>) -> Option<Seq<char>> {
    match variable {
        Some(name) => if name.len() > 0 {
            Some(name)
        } else {
            None
        },
        None => None,
    }
}

/// The agent that is asked for by name: by an option, or else by the
/// environment, or else by the configuration.
pub open spec fn requested_agent(
    explicit: Option<Seq<char>>,
    variable: Option<Seq<char>>,
    default_agent: Option<Seq<char>>,
) -> Option<Seq<char>> {
    if explicit is Some {
        explicit
    } else if environment_agent(variable) is Some {
        environment_agent(variable)
    } else {
        default_agent
    }
}

/// A requested agent if there is one, or else the only agent there is, or else
/// the one that a person picks, if that is allowed.
pub open spec fn selection(
    config: ConfigModel,
    explicit: Option<Seq<char>>,
    variable: Option<Seq<char>>,
    interactive: bool,
) -> SelectionModel {
    match requested_agent(explicit, variable, config.default_agent) {
        Some(name) => match config::lookup(config.agents, name) {
            Some(agent) => SelectionModel::Chosen((name, agent)),
            None => SelectionModel::Unknown(name),
        },
        None => if config.agents.len() == 1 {
            SelectionModel::Chosen(config.agents[0])
        } else if interactive {
            SelectionModel::Pick
        } else {
            SelectionModel::Unavailable
        },
    }
}

fn requested(
    explicit: &Option<String>,
    variable: &Option<String>,
    default_agent: &Option<String>,
) -> (name: Option<String>)
    ensures
        config::optional_text(name) == requested_agent(
            config::optional_text(*explicit),
            config::optional_text(*variable),
            config::optional_text(*default_agent),
        ),
{
    if let Some(name) = explicit {
        return Some(name.clone());
    }
    if let Some(name) = variable {
        if !name.as_str().is_empty() {
            return Some(name.clone());
        }
    }
    match default_agent {
        Some(name) => Some(name.clone()),
        None => None,
    }
}

pub fn select_agent(
    config: &Config,
    explicit: &Option<String>,
    variable: &Option<String>,
    interactive: bool,
) -> (out: Selection)
    ensures
        out@ == selection(
            config@,
            config::optional_text(*explicit),
            config::optional_text(*variable),
            interactive,
        ),
{
    match requested(explicit, variable, &config.default_agent) {
        Some(name) => match config.get(name.as_str()) {
            Some(agent) => Selection::Chosen(NamedAgent { name, agent: agent.clone() }),
            None => Selection::Unknown(name),
        },
        None => if config.agents.len() == 1 {
            assert(config@.agents[0] == config.agents@[0]@);
            Selection::Chosen(config.agents[0].copy())
        } else if interactive {
            Selection::Pick
        } else {
            Selection::Unavailable
        },
    }
}

/// The line that stands for an agent in a list to select from.
pub open spec fn picker_label(entry: (Seq<char>, AgentModel)) -> Seq<char> {
    entry.0 + " ("@ + entry.1.command + ")"@
}

/// Someone at a terminal, who selects an agent from a list of lines.
#[derive(Clone, Copy, Debug, Default)]
pub struct TerminalAgentPicker;

impl TerminalAgentPicker {
    /// The lines for all agents, in the order of the configuration.
    pub fn labels(&self, config: &Config) -> (labels: Vec<String>)
        ensures
            labels@.len() == config@.agents.len(),
            forall|i: int|
                0 <= i < labels@.len() ==> (#[trigger] labels@[i])@ == picker_label(config@.agents[i]),
    {
        let mut labels: Vec<String> = Vec::new();
        let mut i: usize = 0;
        while i < config.agents.len()
            invariant
                i <= config.agents@.len(),
                labels@.len() == i,
                forall|j: int|
                    0 <= j < i ==> (#[trigger] labels@[j])@ == picker_label(config@.agents[j]),
            decreases config.agents@.len() - i,
        {
            let entry: &NamedAgent = &config.agents[i];
            let mut label: String = entry.name.clone();
            label.append(" (");
            label.append(entry.agent.command.as_str());
            label.append(")");
            assert(config@.agents[i as int] == entry@);
            labels.push(label);
            i = i + 1;
        }
        labels
    }

    /// The agent behind a line.
    pub fn picked(&self, config: &Config, index: usize) -> (entry: Option<NamedAgent>)
        ensures
            match entry {
                Some(entry) => index < config@.agents.len() && entry@ == config@.agents[index as int],
                None => index >= config@.agents.len(),
            },
    {
        if index < config.agents.len() {
            assert(config@.agents[index as int] == config.agents@[index as int]@);
            Some(config.agents[index].copy())
        } else {
            None
        }
    }
}

/// An agent with arguments for one run behind those it always gets.
pub open spec fn launched(agent: AgentModel, extra: Seq<Seq<char>>) -> AgentModel {
    AgentModel { command: agent.command, args: agent.args + extra }
}

pub fn with_arguments(agent: &Agent, extra: &Vec<String>) -> (out: Agent)
    ensures
        out@ == launched(agent@, text::views(extra@)),
{
    let mut args: Vec<String> = copy_texts(&agent.args);
    let mut i: usize = 0;
    assert(text::views(extra@).take(0) =~= Seq::<Seq<char>>::empty());
    assert(text::views(args@) =~= agent@.args + text::views(extra@).take(0));
    while i < extra.len()
        invariant
            i <= extra@.len(),
            text::views(args@) == agent@.args + text::views(extra@).take(i as int),
        decreases extra@.len() - i,
    {
        let ghost before = text::views(args@);
        let ghost more = text::views(extra@);
        args.push(extra[i].clone());
        assert(text::views(args@) =~= before.push(extra@[i as int]@));
        assert(more.take(i + 1) =~= more.take(i as int).push(more[i as int]));
        assert(text::views(args@) =~= agent@.args + more.take(i + 1));
        i = i + 1;
    }
    assert(text::views(extra@).take(i as int) =~= text::views(extra@));
    let out: Agent = Agent { command: agent.command.clone(), args };
    assert(out@ =~= launched(agent@, text::views(extra@)));
    out
}

/// What a first look at the configuration file shows.
#[derive(Clone, Copy, Debug, PartialEq, Eq, Structural)]
pub enum ConfigSketch {
    /// There is no such file.
    Missing,
    /// It is there, but cannot be understood.
    Malformed,
    Present { has_default: bool, agents: usize },
}

/// A run without a terminal can go on: something decides which agent to start,
/// or the configuration has a fault that is to be reported instead.
pub open spec fn resolvable(
    explicit: bool,
    variable: Option<Seq<char>>,
    sketch: ConfigSketch,
) -> bool {
    ||| explicit
    ||| environment_agent(variable) is Some
    ||| match sketch {
        ConfigSketch::Present { has_default, agents } => has_default || agents == 1,
        _ => true,
    }
}

pub fn direct_agent_is_resolvable(
    explicit: bool,
    variable: &Option<String>,
    sketch: ConfigSketch,
) -> (r: bool)
    ensures
        r == resolvable(explicit, config::optional_text(*variable), sketch),
{
    if explicit {
        return true;
    }
    if let Some(name) = variable {
        if !name.as_str().is_empty() {
            return true;
        }
    }
    match sketch {
        ConfigSketch::Present { has_default, agents } => has_default || agents == 1,
        ConfigSketch::Missing => true,
        ConfigSketch::Malformed => true,
    }
}

/// What is asked for by an option is never overruled, and a variable only by
/// such an option.
pub proof fn requests_take_precedence(
    config: ConfigModel,
    explicit: Option<Seq<char>>,
    variable: Option<Seq<char>>,
    interactive: bool,
)
    ensures
        explicit matches Some(name) ==> (selection(config, explicit, variable, interactive)
            == match config::lookup(config.agents, name) {
            Some(agent) => SelectionModel::Chosen((name, agent)),
            None => SelectionModel::Unknown(name),
        }),
        explicit is None && environment_agent(variable) is Some ==> selection(
            config,
            explicit,
            variable,
            interactive,
        ) == selection(config, variable, None, interactive),
{
}

/// An unknown agent is reported, whether or not a person could be asked.
pub proof fn unknown_agents_are_never_picked_around(
    config: ConfigModel,
    explicit: Option<Seq<char>>,
    variable: Option<Seq<char>>,
)
    ensures
        requested_agent(explicit, variable, config.default_agent) is Some ==> selection(
            config,
            explicit,
            variable,
            true,
        ) == selection(config, explicit, variable, false),
        selection(config, explicit, variable, false) != SelectionModel::Pick,
        selection(config, explicit, variable, true) != SelectionModel::Unavailable,
{
}

/// Every agent that is chosen is one of the configured agents.
pub proof fn chosen_agents_are_configured(
    config: ConfigModel,
    explicit: Option<Seq<char>>,
    variable: Option<Seq<char>>,
    interactive: bool,
)
    ensures
        selection(config, explicit, variable, interactive) matches SelectionModel::Chosen(entry)
            ==> config.agents.contains(entry),
{
    if let Some(name) = requested_agent(explicit, variable, config.default_agent) {
        lemma_lookup_contains(config.agents, name);
    } else if config.agents.len() == 1 {
        assert(config.agents[0] == config.agents[0]);
    }
}

proof fn lemma_lookup_contains(agents: Seq<(Seq<char>, AgentModel)>, name: Seq<char>)
    ensures
        config::lookup(agents, name) matches Some(agent) ==> agents.contains((name, agent)),
    decreases agents.len(),
{
    if agents.len() > 0 {
        if agents[0].0 == name {
            assert(agents[0] == (name, agents[0].1));
        } else {
            let rest = agents.skip(1);
            lemma_lookup_contains(rest, name);
            if let Some(agent) = config::lookup(rest, name) {
                let i = choose|i: int| 0 <= i < rest.len() && rest[i] == (name, agent);
                assert(agents[i + 1] == (name, agent));
            }
        }
    }
}

/// A first look that finds the agent resolvable is right: the selection is then
/// made without a person.
pub proof fn resolvable_means_decided(
    config: ConfigModel,
    explicit: Option<Seq<char>>,
    variable: Option<Seq<char>>,
    sketch: ConfigSketch,
)
    requires
        sketch matches ConfigSketch::Present { has_default, agents } && has_default
            == config.default_agent is Some && agents == config.agents.len(),
    ensures
        resolvable(explicit is Some, variable, sketch) <==> selection(
            config,
            explicit,
            variable,
            false,
        ) != SelectionModel::Unavailable,
{
}

/// An agent is started with its own command and with all its configured arguments,
/// in their order, and right behind them all that were given for the run.
pub proof fn configured_arguments_come_first(agent: AgentModel, extra: Seq<Seq<char>>)
    ensures
        launched(agent, extra).command == agent.command,
        launched(agent, extra).args.len() == agent.args.len() + extra.len(),
        forall|i: int|
            0 <= i < agent.args.len() ==> #[trigger] launched(agent, extra).args[i]
                == agent.args[i],
        forall|j: int|
            0 <= j < extra.len() ==> #[trigger] extra[j] == launched(agent, extra).args[
                agent.args.len() + j],
{
}

/// The name that was asked for decides on the agent, or else that of a variable that is
/// not empty, or else the default: the agent of that name is chosen, and if none has it,
/// that is what is reported.
pub proof fn named_agents_are_chosen(
    config: ConfigModel,
    explicit: Option<Seq<char>>,
    variable: Option<Seq<char>>,
    interactive: bool,
    name: Seq<char>,
)
    requires
        ({
            ||| explicit == Some(name)
            ||| explicit is None && variable == Some(name) && name.len() > 0
            ||| explicit is None && (variable is None || variable == Some(Seq::<char>::empty()))
                && config.default_agent == Some(name)
        }),
    ensures
        match selection(config, explicit, variable, interactive) {
            SelectionModel::Chosen(entry) => entry.0 == name && config.agents.contains(entry),
            SelectionModel::Unknown(unknown) => unknown == name && forall|i: int|
                0 <= i < config.agents.len() ==> (#[trigger] config.agents[i]).0 != name,
            _ => false,
        },
{
    if let Some(value) = variable {
        if value.len() == 0 {
            assert(value =~= Seq::<char>::empty());
        }
    }
    assert(requested_agent(explicit, variable, config.default_agent) == Some(name));
    lemma_lookup_contains(config.agents, name);
    lemma_lookup_misses(config.agents, name);
}

proof fn lemma_lookup_misses(agents: Seq<(Seq<char>, AgentModel)>, name: Seq<char>)
    ensures
        config::lookup(agents, name) is None ==> forall|i: int|
            0 <= i < agents.len() ==> (#[trigger] agents[i]).0 != name,
    decreases agents.len(),
{
    if agents.len() > 0 && agents[0].0 != name {
        let rest = agents.skip(1);
        lemma_lookup_misses(rest, name);
        if config::lookup(agents, name) is None {
            assert forall|i: int| 0 <= i < agents.len() implies (#[trigger] agents[i]).0 != name by {
                if i > 0 {
                    assert(agents[i] == rest[i - 1]);
                }
            }
        }
    }
}

/// If no name decides, the only agent is chosen; of several, or of none, a person
/// picks one, if that is allowed, and otherwise there is none.
pub proof fn unnamed_agents_are_picked(
    config: ConfigModel,
    variable: Option<Seq<char>>,
    interactive: bool,
)
    requires
        variable is None || variable == Some(Seq::<char>::empty()),
        config.default_agent is None,
    ensures
        config.agents.len() == 1 ==> selection(config, None, variable, interactive)
            == SelectionModel::Chosen(config.agents[0]),
        config.agents.len() != 1 ==> selection(config, None, variable, true)
            == SelectionModel::Pick,
        config.agents.len() != 1 ==> selection(config, None, variable, false)
            == SelectionModel::Unavailable,
{
}

/// Without a configuration that can be read, a run goes on, so that the fault is
/// reported.
pub proof fn faults_do_not_look_like_a_missing_choice(
    explicit: bool,
    variable: Option<Seq<char>>,
)
    ensures
        resolvable(explicit, variable, ConfigSketch::Missing),
        resolvable(explicit, variable, ConfigSketch::Malformed),
{
}

/// The line for an agent is its name and, in brackets, its command.
pub proof fn labels_tell_name_and_command(name: Seq<char>, agent: AgentModel)
    ensures
        ({
            let label = picker_label((name, agent));
            let n = name.len() as int;
            let m = agent.command.len() as int;
            &&& label.len() == n + m + 3
            &&& label.take(n) == name
            &&& label[n] == ' ' && label[n + 1] == '('
            &&& label.subrange(n + 2, n + 2 + m) == agent.command
            &&& label.last() == ')'
        }),
{
    reveal_strlit(" (");
    reveal_strlit(")");
    let label = picker_label((name, agent));
    let n = name.len() as int;
    assert(label.take(n) =~= name);
    assert(label.subrange(n + 2, n + 2 + agent.command.len()) =~= agent.command);
}

} // verus!
