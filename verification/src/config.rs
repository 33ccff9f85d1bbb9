//! Configured agents: what a configuration holds, when it is valid, and how an
//! agent is added to it.

use vstd::prelude::*;

use crate::error;
use crate::error::{message, message3, ToolError};
use crate::text;
use crate::text::{blank, contains_char, copy_texts, same_text, text_precedes};

verus! {

/// What the `Debug` formatting of a string returns.
pub uninterp spec fn debug_result(value: Seq<char>) -> Seq<char>;

/// Printable ASCII characters without quotes and backslashes.
pub open spec fn is_printable(value: Seq<char>) -> bool {
    forall|i: int|
        0 <= i < value.len() ==> 0x20 <= (#[trigger] value[i]) as u32 <= 0x7e && value[i] != '"'
            && value[i] != '\\'
}

/// A text in quotes, with what is not printable escaped.
pub open spec fn debug_text(value: Seq<char>) -> Seq<char> {
    if is_printable(value) {
        seq!['"'] + value + seq!['"']
    } else {
        debug_result(value)
    }
}

/// `format!` with `{:?}` on a string. Of the result this claims that it depends on
/// the characters of the string alone, and that printable ASCII characters other
/// than quotes and backslashes come out as they are, between two quotes; how
/// other characters are escaped is not said.
#[verifier::external_body]
pub(crate) fn quoted(value: &str) -> (out: String)
    ensures
        out@ == debug_result(value@),
        out@ == debug_text(value@),
{
    format!("{:?}", value)
}

/// A program to run, with the arguments that always go with it.
#[derive(Debug)]
pub struct Agent {
    pub command: String,
    pub args: Vec<String>,
}

#[verifier::ext_equal]
pub struct AgentModel {
    pub command: Seq<char>,
    pub args: Seq<Seq<char>>,
}

impl View for Agent {
    type V = AgentModel;

    open spec fn view(&self) -> AgentModel {
        AgentModel { command: self.command@, args: text::views(self.args@) }
    }
}

impl Clone for Agent {
    fn clone(&self) -> (out: Agent)
        ensures
            out@ == self@,
    {
        Agent { command: self.command.clone(), args: copy_texts(&self.args) }
    }
}

#[derive(Debug)]
pub struct NamedAgent {
    pub name: String,
    pub agent: Agent,
}

impl View for NamedAgent {
    type V = (Seq<char>, AgentModel);

    open spec fn view(&self) -> (Seq<char>, AgentModel) {
        (self.name@, self.agent@)
    }
}

/// The configured agents in the order of their names, and the one to use when
/// nothing else is said.
#[derive(Debug)]
pub struct Config {
    pub agents: Vec<NamedAgent>,
    pub default_agent: Option<String>,
}

#[verifier::ext_equal]
pub struct ConfigModel {
    pub agents: Seq<(Seq<char>, AgentModel)>,
    pub default_agent: Option<Seq<char>>,
}

pub open spec fn entries(list: Seq<NamedAgent>) -> Seq<(Seq<char>, AgentModel)> {
    list.map_values(|entry: NamedAgent| entry@)
}

pub open spec fn optional_text(value: Option<String>) -> Option<Seq<char>> {
    match value {
        Some(text) => Some(text@),
        None => None,
    }
}

impl View for Config {
    type V = ConfigModel;

    open spec fn view(&self) -> ConfigModel {
        ConfigModel {
            agents: entries(self.agents@),
            default_agent: optional_text(self.default_agent),
        }
    }
}

/// Every name once, in ascending order.
pub open spec fn ordered(agents: Seq<(Seq<char>, AgentModel)>) -> bool {
    forall|i: int, j: int|
        0 <= i < j < agents.len() ==> text::precedes((#[trigger] agents[i]).0, (#[trigger] agents[j]).0)
}

/// The agent that goes by a name.
pub open spec fn lookup(agents: Seq<(Seq<char>, AgentModel)>, name: Seq<char>) -> Option<AgentModel>
    decreases agents.len(),
{
    if agents.len() == 0 {
        None
    } else if agents[0].0 == name {
        Some(agents[0].1)
    } else {
        lookup(agents.skip(1), name)
    }
}

/// The agents with one added in its place, or replaced if the name is taken.
pub open spec fn put(
    agents: Seq<(Seq<char>, AgentModel)>,
    name: Seq<char>,
    agent: AgentModel,
) -> Seq<(Seq<char>, AgentModel)>
    decreases agents.len(),
{
    if agents.len() == 0 {
        seq![(name, agent)]
    } else if agents[0].0 == name {
        seq![(name, agent)] + agents.skip(1)
    } else if text::precedes(name, agents[0].0) {
        seq![(name, agent)] + agents
    } else {
        seq![agents[0]] + put(agents.skip(1), name, agent)
    }
}

/// Neither a line break nor a NUL.
pub open spec fn is_single_line(s: Seq<char>) -> bool {
    !s.contains('\n') && !s.contains('\r') && !s.contains('\0')
}

/// A name or a command: something visible on a single line.
pub open spec fn is_label(s: Seq<char>) -> bool {
    !text::is_blank(s) && is_single_line(s)
}

pub open spec fn has_nul(list: Seq<Seq<char>>) -> bool {
    exists|i: int| 0 <= i < list.len() && (#[trigger] list[i]).contains('\0')
}

pub open spec fn entry_valid(entry: (Seq<char>, AgentModel)) -> bool {
    is_label(entry.0) && is_label(entry.1.command) && !has_nul(entry.1.args)
}

/// The complaint about one agent, if there is any.
pub open spec fn entry_problem(entry: (Seq<char>, AgentModel)) -> Option<Seq<char>> {
    if !is_label(entry.0) {
        Some("agent names must be non-empty single-line values"@)
    } else if !is_label(entry.1.command) {
        Some("agent "@ + debug_text(entry.0) + " must define a non-empty single-line command"@)
    } else if has_nul(entry.1.args) {
        Some("agent "@ + debug_text(entry.0) + " arguments must not contain NUL bytes"@)
    } else {
        None
    }
}

/// The complaint about the first agent that deserves one.
pub open spec fn first_problem(agents: Seq<(Seq<char>, AgentModel)>) -> Option<Seq<char>>
    decreases agents.len(),
{
    if agents.len() == 0 {
        None
    } else if entry_problem(agents[0]) is Some {
        entry_problem(agents[0])
    } else {
        first_problem(agents.skip(1))
    }
}

/// The complaint about a whole configuration, if there is any.
pub open spec fn config_problem(config: ConfigModel) -> Option<Seq<char>> {
    if config.agents.len() == 0 {
        Some("agent configuration must contain at least one agent"@)
    } else if first_problem(config.agents) is Some {
        first_problem(config.agents)
    } else if config.default_agent matches Some(name) && lookup(config.agents, name) is None {
        Some("default_agent "@ + debug_text(config.default_agent->0) + " is not a configured agent"@)
    } else {
        None
    }
}

/// At least one agent, all of them valid, and the default among them.
pub open spec fn config_valid(config: ConfigModel) -> bool {
    &&& config.agents.len() > 0
    &&& forall|i: int| 0 <= i < config.agents.len() ==> entry_valid(#[trigger] config.agents[i])
    &&& config.default_agent matches Some(name) ==> lookup(config.agents, name) is Some
}

/// There is a complaint about exactly the configurations that are not valid.
pub proof fn complaints_are_exact(config: ConfigModel)
    ensures
        config_problem(config) is None <==> config_valid(config),
{
    lemma_first_problem(config.agents);
}

proof fn lemma_first_problem(agents: Seq<(Seq<char>, AgentModel)>)
    ensures
        first_problem(agents) is None <==> forall|i: int|
            0 <= i < agents.len() ==> entry_valid(#[trigger] agents[i]),
    decreases agents.len(),
{
    if agents.len() > 0 {
        let rest = agents.skip(1);
        lemma_first_problem(rest);
        if first_problem(agents) is None {
            assert forall|i: int| 0 <= i < agents.len() implies entry_valid(#[trigger] agents[i]) by {
                if i > 0 {
                    assert(agents[i] == rest[i - 1]);
                }
            }
        }
        if forall|i: int| 0 <= i < agents.len() ==> entry_valid(#[trigger] agents[i]) {
            assert forall|i: int| 0 <= i < rest.len() implies entry_valid(#[trigger] rest[i]) by {
                assert(rest[i] == agents[i + 1]);
            }
            assert(entry_valid(agents[0]));
        }
    }
}

/// Adding an agent sets the agent of that name and leaves all others alone.
pub proof fn put_sets_one_agent(
    agents: Seq<(Seq<char>, AgentModel)>,
    name: Seq<char>,
    agent: AgentModel,
    other: Seq<char>,
)
    requires
        ordered(agents),
    ensures
        lookup(put(agents, name, agent), other) == (if other == name {
            Some(agent)
        } else {
            lookup(agents, other)
        }),
    decreases agents.len(),
{
    let all = put(agents, name, agent);
    if agents.len() == 0 {
        assert(all.skip(1) =~= agents);
    } else if agents[0].0 == name {
        assert(all.skip(1) =~= agents.skip(1));
    } else if text::precedes(name, agents[0].0) {
        assert(all.skip(1) =~= agents);
    } else {
        lemma_ordered_skip(agents);
        put_sets_one_agent(agents.skip(1), name, agent, other);
        assert(all.skip(1) =~= put(agents.skip(1), name, agent));
    }
}

proof fn lemma_ordered_skip(agents: Seq<(Seq<char>, AgentModel)>)
    requires
        ordered(agents),
        agents.len() > 0,
    ensures
        ordered(agents.skip(1)),
{
    let rest = agents.skip(1);
    assert forall|i: int, j: int| 0 <= i < j < rest.len() implies text::precedes(
        (#[trigger] rest[i]).0,
        (#[trigger] rest[j]).0,
    ) by {
        assert(rest[i] == agents[i + 1]);
        assert(rest[j] == agents[j + 1]);
    }
}

/// Adding an agent keeps the names unique and in order.
pub proof fn put_keeps_order(
    agents: Seq<(Seq<char>, AgentModel)>,
    name: Seq<char>,
    agent: AgentModel,
)
    requires
        ordered(agents),
    ensures
        ordered(put(agents, name, agent)),
        put(agents, name, agent).len() == agents.len() + (if lookup(agents, name) is Some {
            0int
        } else {
            1int
        }),
    decreases agents.len(),
{
    let all = put(agents, name, agent);
    if agents.len() == 0 {
    } else if agents[0].0 == name {
        assert forall|i: int, j: int| 0 <= i < j < all.len() implies text::precedes(
            (#[trigger] all[i]).0,
            (#[trigger] all[j]).0,
        ) by {
            assert(all[i].0 == agents[i].0);
            assert(all[j].0 == agents[j].0);
        }
    } else if text::precedes(name, agents[0].0) {
        lemma_lookup_absent(agents, name);
        assert forall|i: int, j: int| 0 <= i < j < all.len() implies text::precedes(
            (#[trigger] all[i]).0,
            (#[trigger] all[j]).0,
        ) by {
            assert(all[j] == agents[j - 1]);
            if i == 0 {
                if j > 1 {
                    assert(text::precedes(agents[0].0, agents[j - 1].0));
                    text::lemma_precedes(name, agents[0].0, agents[j - 1].0);
                }
            } else {
                assert(all[i] == agents[i - 1]);
            }
        }
    } else {
        let rest = agents.skip(1);
        lemma_ordered_skip(agents);
        put_keeps_order(rest, name, agent);
        let tail = put(rest, name, agent);
        text::lemma_precedes_total(agents[0].0, name);
        assert forall|i: int, j: int| 0 <= i < j < all.len() implies text::precedes(
            (#[trigger] all[i]).0,
            (#[trigger] all[j]).0,
        ) by {
            assert(all[j] == tail[j - 1]);
            if i == 0 {
                lemma_put_members(rest, name, agent, j - 1);
                if tail[j - 1].0 != name {
                    let k = choose|k: int| 0 <= k < rest.len() && (#[trigger] rest[k]).0 == tail[j - 1].0;
                    assert(rest[k] == agents[k + 1]);
                }
            } else {
                assert(all[i] == tail[i - 1]);
            }
        }
    }
}

proof fn lemma_put_members(
    agents: Seq<(Seq<char>, AgentModel)>,
    name: Seq<char>,
    agent: AgentModel,
    i: int,
)
    requires
        0 <= i < put(agents, name, agent).len(),
    ensures
        put(agents, name, agent)[i].0 == name || exists|k: int|
            0 <= k < agents.len() && (#[trigger] agents[k]).0 == put(agents, name, agent)[i].0,
    decreases agents.len(),
{
    let all = put(agents, name, agent);
    if agents.len() == 0 {
    } else if agents[0].0 == name {
        if i > 0 {
            assert(all[i] == agents[i]);
        }
    } else if text::precedes(name, agents[0].0) {
        if i > 0 {
            assert(all[i] == agents[i - 1]);
        }
    } else if i == 0 {
        assert(all[0] == agents[0]);
    } else {
        lemma_put_members(agents.skip(1), name, agent, i - 1);
        assert(all[i] == put(agents.skip(1), name, agent)[i - 1]);
        if all[i].0 != name {
            let k = choose|k: int|
                0 <= k < agents.skip(1).len() && (#[trigger] agents.skip(1)[k]).0 == all[i].0;
            assert(agents[k + 1] == agents.skip(1)[k]);
        }
    }
}

/// A name before all others is not taken.
proof fn lemma_lookup_absent(agents: Seq<(Seq<char>, AgentModel)>, name: Seq<char>)
    requires
        ordered(agents),
        agents.len() > 0 ==> text::precedes(name, agents[0].0),
    ensures
        lookup(agents, name) is None,
    decreases agents.len(),
{
    if agents.len() > 0 {
        lemma_ordered_skip(agents);
        if agents.len() > 1 {
            assert(text::precedes(agents[0].0, agents[1].0));
            text::lemma_precedes(name, agents[0].0, agents[1].0);
            assert(agents.skip(1)[0] == agents[1]);
        }
        text::lemma_precedes(name, name, name);
        lemma_lookup_absent(agents.skip(1), name);
    }
}

/// Where an agent goes: behind everything that is neither it nor after it.
proof fn lemma_put_at(
    agents: Seq<(Seq<char>, AgentModel)>,
    name: Seq<char>,
    agent: AgentModel,
    at: int,
)
    requires
        0 <= at <= agents.len(),
        forall|j: int|
            0 <= j < at ==> (#[trigger] agents[j]).0 != name && !text::precedes(name, agents[j].0),
        at < agents.len() ==> agents[at].0 == name || text::precedes(name, agents[at].0),
    ensures
        put(agents, name, agent) == (if at < agents.len() && agents[at].0 == name {
            agents.update(at, (name, agent))
        } else {
            agents.insert(at, (name, agent))
        }),
    decreases at,
{
    let all = put(agents, name, agent);
    if at == 0 {
        if agents.len() == 0 || agents[0].0 != name {
            assert(all =~= agents.insert(0, (name, agent)));
        } else {
            assert(all =~= agents.update(0, (name, agent)));
        }
    } else {
        let rest = agents.skip(1);
        assert forall|j: int| 0 <= j < at - 1 implies (#[trigger] rest[j]).0 != name
            && !text::precedes(name, rest[j].0) by {
            assert(rest[j] == agents[j + 1]);
        }
        assert(agents[0].0 != name);
        lemma_put_at(rest, name, agent, at - 1);
        if at < agents.len() && agents[at].0 == name {
            assert(all =~= agents.update(at, (name, agent)));
        } else {
            assert(all =~= agents.insert(at, (name, agent)));
        }
    }
}

fn single_line(text: &str) -> (r: bool)
    ensures
        r == is_single_line(text@),
{
    !contains_char(text, '\n') && !contains_char(text, '\r') && !contains_char(text, '\0')
}

pub fn label(text: &str) -> (r: bool)
    ensures
        r == is_label(text@),
{
    !blank(text) && single_line(text)
}

fn any_nul(list: &Vec<String>) -> (r: bool)
    ensures
        r == has_nul(text::views(list@)),
{
    let mut i: usize = 0;
    while i < list.len()
        invariant
            i <= list@.len(),
            forall|j: int| 0 <= j < i ==> !(#[trigger] text::views(list@)[j]).contains('\0'),
        decreases list@.len() - i,
    {
        if contains_char(list[i].as_str(), '\0') {
            assert(text::views(list@)[i as int].contains('\0'));
            return true;
        }
        i = i + 1;
    }
    false
}

impl NamedAgent {
    fn check(&self) -> (result: Result<(), ToolError>)
        ensures
            match result {
                Ok(()) => entry_problem(self@) is None,
                Err(e) => entry_problem(self@) matches Some(m) && error::is_message(e, m),
            },
    {
        if !label(self.name.as_str()) {
            return Err(message("agent names must be non-empty single-line values"));
        }
        if !label(self.agent.command.as_str()) {
            return Err(
                message3(
                    "agent ",
                    quoted(self.name.as_str()).as_str(),
                    " must define a non-empty single-line command",
                ),
            );
        }
        if any_nul(&self.agent.args) {
            return Err(
                message3(
                    "agent ",
                    quoted(self.name.as_str()).as_str(),
                    " arguments must not contain NUL bytes",
                ),
            );
        }
        Ok(())
    }

    pub fn copy(&self) -> (out: NamedAgent)
        ensures
            out@ == self@,
    {
        NamedAgent { name: self.name.clone(), agent: self.agent.clone() }
    }
}

impl Default for Config {
    fn default() -> (config: Config)
        ensures
            config@ == (ConfigModel { agents: Seq::empty(), default_agent: None }),
            config.well_formed(),
    {
        let config: Config = Config { agents: Vec::new(), default_agent: None };
        assert(config@.agents =~= Seq::empty());
        config
    }
}

impl Config {
    /// Names are unique and in order.
    pub open spec fn well_formed(&self) -> bool {
        ordered(self@.agents)
    }

    /// The position of the agent of that name, or the number of agents.
    fn position(&self, name: &str) -> (at: usize)
        ensures
            at <= self@.agents.len(),
            at < self@.agents.len() ==> self@.agents[at as int].0 == name@ && lookup(
                self@.agents,
                name@,
            ) == Some(self@.agents[at as int].1),
            at == self@.agents.len() ==> lookup(self@.agents, name@) is None,
    {
        let mut i: usize = 0;
        assert(self@.agents.skip(0) =~= self@.agents);
        while i < self.agents.len()
            invariant
                i <= self.agents@.len(),
                lookup(self@.agents.skip(i as int), name@) == lookup(self@.agents, name@),
            decreases self.agents@.len() - i,
        {
            assert(self@.agents.skip(i as int)[0] == self.agents@[i as int]@);
            if same_text(self.agents[i].name.as_str(), name) {
                return i;
            }
            assert(self@.agents.skip(i as int).skip(1) =~= self@.agents.skip(i + 1));
            i = i + 1;
        }
        assert(self@.agents.skip(i as int) =~= Seq::empty());
        i
    }

    pub fn get(&self, name: &str) -> (agent: Option<&Agent>)
        ensures
            match agent {
                Some(a) => lookup(self@.agents, name@) == Some(a@),
                None => lookup(self@.agents, name@) is None,
            },
    {
        let at: usize = self.position(name);
        if at < self.agents.len() {
            assert(self@.agents[at as int] == self.agents@[at as int]@);
            Some(&self.agents[at].agent)
        } else {
            None
        }
    }

    pub fn validate(&self) -> (result: Result<(), ToolError>)
        ensures
            match result {
                Ok(()) => config_problem(self@) is None,
                Err(e) => config_problem(self@) matches Some(m) && error::is_message(e, m),
            },
    {
        if self.agents.len() == 0 {
            return Err(message("agent configuration must contain at least one agent"));
        }
        let mut i: usize = 0;
        assert(self@.agents.skip(0) =~= self@.agents);
        while i < self.agents.len()
            invariant
                i <= self.agents@.len(),
                self.agents@.len() > 0,
                first_problem(self@.agents.skip(i as int)) == first_problem(self@.agents),
            decreases self.agents@.len() - i,
        {
            assert(self@.agents.skip(i as int)[0] == self.agents@[i as int]@);
            match self.agents[i].check() {
                Ok(()) => {},
                Err(e) => {
                    return Err(e);
                },
            }
            assert(self@.agents.skip(i as int).skip(1) =~= self@.agents.skip(i + 1));
            i = i + 1;
        }
        assert(self@.agents.skip(i as int) =~= Seq::empty());
        if let Some(name) = &self.default_agent {
            if self.get(name.as_str()).is_none() {
                return Err(
                    message3(
                        "default_agent ",
                        quoted(name.as_str()).as_str(),
                        " is not a configured agent",
                    ),
                );
            }
        }
        Ok(())
    }

    /// Adds an agent, or replaces the one of that name.
    pub fn insert(&mut self, name: String, agent: Agent)
        requires
            old(self).well_formed(),
        ensures
            final(self).well_formed(),
            final(self)@ == (ConfigModel {
                agents: put(old(self)@.agents, name@, agent@),
                ..old(self)@
            }),
    {
        let mut at: usize = 0;
        while at < self.agents.len() && !same_text(self.agents[at].name.as_str(), name.as_str())
            && !text_precedes(name.as_str(), self.agents[at].name.as_str())
            invariant
                at <= self.agents@.len(),
                *self == *old(self),
                forall|j: int|
                    0 <= j < at ==> (#[trigger] self@.agents[j]).0 != name@ && !text::precedes(
                        name@,
                        self@.agents[j].0,
                    ),
            decreases self.agents@.len() - at,
        {
            at = at + 1;
        }
        let ghost before = self@.agents;
        proof {
            lemma_put_at(before, name@, agent@, at as int);
            put_keeps_order(before, name@, agent@);
        }
        let ghost model = (name@, agent@);
        let taken: bool = at < self.agents.len() && same_text(
            self.agents[at].name.as_str(),
            name.as_str(),
        );
        let entry: NamedAgent = NamedAgent { name, agent };
        if taken {
            self.agents[at] = entry;
            assert(entries(self.agents@) =~= before.update(at as int, model));
        } else {
            self.agents.insert(at, entry);
            assert(entries(self.agents@) =~= before.insert(at as int, model));
        }
    }

    pub fn copy(&self) -> (out: Config)
        ensures
            out@ == self@,
    {
        let mut agents: Vec<NamedAgent> = Vec::new();
        let mut i: usize = 0;
        while i < self.agents.len()
            invariant
                i <= self.agents@.len(),
                entries(agents@) == entries(self.agents@).take(i as int),
            decreases self.agents@.len() - i,
        {
            let ghost before = entries(agents@);
            agents.push(self.agents[i].copy());
            assert(entries(agents@) =~= before.push(self.agents@[i as int]@));
            assert(entries(self.agents@).take(i + 1) =~= entries(self.agents@).take(i as int).push(
                self.agents@[i as int]@,
            ));
            i = i + 1;
        }
        assert(entries(self.agents@).take(i as int) =~= entries(self.agents@));
        Config { agents, default_agent: self.default_agent.clone() }
    }

    /// Adds or replaces an agent if the configuration is valid with it;
    /// otherwise nothing changes.
    pub fn add_or_replace(&mut self, name: String, agent: Agent) -> (result: Result<(), ToolError>)
        requires
            old(self).well_formed(),
        ensures
            final(self).well_formed(),
            ({
                let candidate = ConfigModel {
                    agents: put(old(self)@.agents, name@, agent@),
                    ..old(self)@
                };
                match result {
                    Ok(()) => config_problem(candidate) is None && final(self)@ == candidate,
                    Err(e) => config_problem(candidate) matches Some(m) && error::is_message(e, m)
                        && final(self)@ == old(self)@,
                }
            }),
    {
        let mut candidate: Config = self.copy();
        candidate.insert(name, agent);
        match candidate.validate() {
            Ok(()) => {
                *self = candidate;
                Ok(())
            },
            Err(e) => Err(e),
        }
    }
}

/// A label shows something and takes up one line.
pub proof fn labels_are_visible_lines(s: Seq<char>)
    ensures
        is_label(s) <==> (exists|i: int|
            0 <= i < s.len() && !text::is_white_space(#[trigger] s[i])) && forall|i: int|
            0 <= i < s.len() ==> #[trigger] s[i] != '\n' && s[i] != '\r' && s[i] != '\0',
{
    if is_single_line(s) {
        assert forall|i: int| 0 <= i < s.len() implies #[trigger] s[i] != '\n' && s[i] != '\r'
            && s[i] != '\0' by {
            assert(s.contains(s[i]));
        }
    }
}

/// An agent is found under its name: the first that has it, and none if none has.
pub proof fn agents_are_found_by_name(
    agents: Seq<(Seq<char>, AgentModel)>,
    name: Seq<char>,
    at: int,
)
    requires
        0 <= at <= agents.len(),
        forall|i: int| 0 <= i < at ==> (#[trigger] agents[i]).0 != name,
        at < agents.len() ==> agents[at].0 == name,
    ensures
        lookup(agents, name) == (if at < agents.len() {
            Some(agents[at].1)
        } else {
            None::<AgentModel>
        }),
    decreases agents.len(),
{
    if at > 0 {
        let rest = agents.skip(1);
        assert(agents[0].0 != name);
        assert forall|i: int| 0 <= i < at - 1 implies (#[trigger] rest[i]).0 != name by {
            assert(rest[i] == agents[i + 1]);
        }
        agents_are_found_by_name(rest, name, at - 1);
    }
}

/// An agent that can be configured: name and command are labels, and no argument holds a
/// NUL.
pub open spec fn is_configurable(entry: (Seq<char>, AgentModel)) -> bool {
    &&& is_label(entry.0)
    &&& is_label(entry.1.command)
    &&& forall|i: int| 0 <= i < entry.1.args.len() ==> !(#[trigger] entry.1.args[i]).contains('\0')
}

/// A configuration is accepted if it has an agent, all its agents can be configured, and
/// its default, if it has one, is one of them.
pub proof fn good_configurations_are_accepted(config: ConfigModel)
    requires
        config.agents.len() > 0,
        forall|i: int|
            0 <= i < config.agents.len() ==> {
                let entry = #[trigger] config.agents[i];
                &&& is_label(entry.0)
                &&& is_label(entry.1.command)
                &&& forall|j: int|
                    0 <= j < entry.1.args.len() ==> !(#[trigger] entry.1.args[j]).contains('\0')
            },
        config.default_agent matches Some(name) ==> exists|i: int|
            0 <= i < config.agents.len() && (#[trigger] config.agents[i]).0 == name,
    ensures
        config_problem(config) is None,
{
    assert forall|i: int| 0 <= i < config.agents.len() implies is_configurable(
        #[trigger] config.agents[i],
    ) by {}
    lemma_no_problem(config.agents, config.agents.len() as int);
    if let Some(name) = config.default_agent {
        let k = choose|i: int| 0 <= i < config.agents.len() && (#[trigger] config.agents[i]).0 == name;
        lemma_found(config.agents, name, k);
    }
}

proof fn lemma_found(agents: Seq<(Seq<char>, AgentModel)>, name: Seq<char>, at: int)
    requires
        0 <= at < agents.len(),
        agents[at].0 == name,
    ensures
        lookup(agents, name) is Some,
    decreases at,
{
    if at > 0 && agents[0].0 != name {
        assert(agents.skip(1)[at - 1] == agents[at]);
        lemma_found(agents.skip(1), name, at - 1);
    }
}

proof fn lemma_no_problem(agents: Seq<(Seq<char>, AgentModel)>, at: int)
    requires
        0 <= at <= agents.len(),
        forall|i: int| 0 <= i < at ==> is_configurable(#[trigger] agents[i]),
        at < agents.len() ==> entry_problem(agents[at]) is Some,
    ensures
        first_problem(agents) == (if at < agents.len() {
            entry_problem(agents[at])
        } else {
            None::<Seq<char>>
        }),
    decreases agents.len(),
{
    if at > 0 {
        let rest = agents.skip(1);
        assert(is_configurable(agents[0]));
        assert forall|i: int| 0 <= i < at - 1 implies is_configurable(#[trigger] rest[i]) by {
            assert(rest[i] == agents[i + 1]);
        }
        if at < agents.len() {
            assert(rest[at - 1] == agents[at]);
        }
        lemma_no_problem(rest, at - 1);
    }
}

/// A configuration that is refused is told why: it has no agent, or what is wrong with
/// the first agent that cannot be configured, or that its default is none of its agents.
pub proof fn bad_configurations_are_refused(config: ConfigModel, at: int)
    requires
        0 <= at <= config.agents.len(),
        forall|i: int| 0 <= i < at ==> is_configurable(#[trigger] config.agents[i]),
        at < config.agents.len() ==> !is_configurable(config.agents[at]),
    ensures
        config.agents.len() == 0 ==> config_problem(config) == Some(
            "agent configuration must contain at least one agent"@,
        ),
        at < config.agents.len() ==> config_problem(config) == Some({
            let entry = config.agents[at];
            if !is_label(entry.0) {
                "agent names must be non-empty single-line values"@
            } else if !is_label(entry.1.command) {
                "agent "@ + debug_text(entry.0) + " must define a non-empty single-line command"@
            } else {
                "agent "@ + debug_text(entry.0) + " arguments must not contain NUL bytes"@
            }
        }),
        config.default_agent matches Some(name) ==> 0 < at && at == config.agents.len() && (
        forall|i: int| 0 <= i < at ==> (#[trigger] config.agents[i]).0 != name) ==> config_problem(
            config,
        ) == Some("default_agent "@ + debug_text(name) + " is not a configured agent"@),
{
    if at < config.agents.len() {
        let entry = config.agents[at];
        if is_label(entry.0) && is_label(entry.1.command) {
            let i = choose|i: int|
                0 <= i < entry.1.args.len() && (#[trigger] entry.1.args[i]).contains('\0');
            assert(has_nul(entry.1.args));
        }
    }
    lemma_no_problem(config.agents, at);
    if let Some(name) = config.default_agent {
        if at == config.agents.len() && (forall|i: int|
            0 <= i < at ==> (#[trigger] config.agents[i]).0 != name) {
            agents_are_found_by_name(config.agents, name, at);
        }
    }
}

} // verus!
