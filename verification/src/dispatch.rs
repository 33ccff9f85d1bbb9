//! How a run is carried out: in which kind of session, and with how much
//! interaction.

use vstd::prelude::*;

use crate::error;
use crate::error::{message, ToolError};
use crate::text;
use crate::text::prefixed;

verus! {

/// Someone can be asked something on the terminal.
pub open spec fn interactive(
    no_interactive: bool,
    stdin_is_terminal: bool,
    stderr_is_terminal: bool,
) -> bool {
    !no_interactive && stdin_is_terminal && stderr_is_terminal
}

pub fn terminal_interaction_allowed(
    no_interactive: bool,
    stdin_is_terminal: bool,
    stderr_is_terminal: bool,
) -> (allowed: bool)
    ensures
        allowed == interactive(no_interactive, stdin_is_terminal, stderr_is_terminal),
{
    !no_interactive && stdin_is_terminal && stderr_is_terminal
}

#[derive(Clone, Copy, Debug, PartialEq, Eq, Structural)]
pub enum Backend {
    /// The agent takes over the terminal.
    Direct,
    /// The agent runs in a tmux session.
    Tmux,
}

/// How a run is carried out.
#[derive(Clone, Copy, Debug, PartialEq, Eq, Structural)]
pub struct RunPlan {
    pub backend: Backend,
    /// A person may be asked for the agent.
    pub interactive: bool,
    pub attach: bool,
    /// The agent has to be decided before anything else.
    pub agent_first: bool,
}

/// The plan for a run, or none if it lacks a name that nobody can be asked for.
pub open spec fn run_plan(
    has_name: bool,
    tmux: bool,
    detach: bool,
    interaction: bool,
) -> Option<RunPlan> {
    if !has_name && !interaction {
        None
    } else if tmux || detach {
        Some(
            RunPlan {
                backend: Backend::Tmux,
                interactive: interaction,
                attach: !detach && interaction,
                agent_first: false,
            },
        )
    } else {
        Some(
            RunPlan {
                backend: Backend::Direct,
                interactive: true,
                attach: true,
                agent_first: !interaction,
            },
        )
    }
}

pub fn plan_run(has_name: bool, tmux: bool, detach: bool, interaction: bool) -> (out: Result<
    RunPlan,
    ToolError,
>)
    ensures
        match out {
            Ok(plan) => run_plan(has_name, tmux, detach, interaction) == Some(plan),
            Err(e) => run_plan(has_name, tmux, detach, interaction) is None && error::is_message(
                e,
                "non-interactive run requires a worktree name"@,
            ),
        },
{
    if !has_name && !interaction {
        return Err(message("non-interactive run requires a worktree name"));
    }
    if tmux || detach {
        Ok(
            RunPlan {
                backend: Backend::Tmux,
                interactive: interaction,
                attach: !detach && interaction,
                agent_first: false,
            },
        )
    } else {
        Ok(
            RunPlan {
                backend: Backend::Direct,
                interactive: true,
                attach: true,
                agent_first: !interaction,
            },
        )
    }
}

/// Without a terminal to interact on, a session is not attached to, and nobody
/// is asked for the agent of one; detaching rules out attaching in any case.
pub proof fn runs_without_a_terminal_stay_detached(
    has_name: bool,
    tmux: bool,
    detach: bool,
    interaction: bool,
)
    ensures
        run_plan(has_name, tmux, detach, interaction) matches Some(plan) ==> {
            &&& plan.backend == Backend::Tmux && !interaction ==> !plan.attach && !plan.interactive
            &&& detach ==> !plan.attach && plan.backend == Backend::Tmux
            &&& plan.backend == Backend::Direct && !interaction ==> plan.agent_first
        },
{
}

/// The names that go on from what has been typed.
pub open spec fn completions(names: Seq<Seq<char>>, typed: Seq<char>) -> Seq<Seq<char>> {
    names.filter(|name: Seq<char>| text::starts_with(name, typed))
}

pub fn worktree_completions(names: Vec<String>, typed: &str) -> (out: Vec<String>)
    ensures
        text::views(out@) == completions(text::views(names@), typed@),
{
    let ghost all = text::views(names@);
    let ghost fits = |name: Seq<char>| text::starts_with(name, typed@);
    let mut out: Vec<String> = Vec::new();
    let mut i: usize = 0;
    proof {
        reveal(Seq::filter);
    }
    assert(all.take(0) =~= Seq::<Seq<char>>::empty());
    assert(text::views(out@) =~= all.take(0).filter(fits));
    while i < names.len()
        invariant
            all == text::views(names@),
            fits == (|name: Seq<char>| text::starts_with(name, typed@)),
            i <= names@.len(),
            text::views(out@) == all.take(i as int).filter(fits),
        decreases names@.len() - i,
    {
        proof {
            reveal(Seq::filter);
        }
        assert(all.take(i + 1).drop_last() =~= all.take(i as int));
        assert(all.take(i + 1).last() == names@[i as int]@);
        if prefixed(names[i].as_str(), typed) {
            let ghost before = text::views(out@);
            out.push(names[i].clone());
            assert(text::views(out@) =~= before.push(names@[i as int]@));
        }
        i = i + 1;
    }
    assert(all.take(i as int) =~= all);
    out
}

/// A run with a name, or with somebody who can be asked for one, always has a plan; one
/// with neither never has.
pub proof fn runs_need_a_name(has_name: bool, tmux: bool, detach: bool, interaction: bool)
    ensures
        run_plan(has_name, tmux, detach, interaction) is Some <==> has_name || interaction,
{
}

/// A run is in the terminal itself, attached, unless a session is asked for, by name or
/// by not attaching. A session is attached to if there is a terminal and nothing was
/// said against it, and only then somebody may be asked for its agent. A run in the
/// terminal itself looks for its agent first if nobody can be asked.
pub proof fn runs_are_attached_where_possible(
    has_name: bool,
    tmux: bool,
    detach: bool,
    interaction: bool,
)
    ensures
        run_plan(has_name, tmux, detach, interaction) matches Some(plan) ==> {
            &&& plan.backend == Backend::Tmux <==> tmux || detach
            &&& plan.backend == Backend::Tmux ==> plan.attach == (interaction && !detach)
            &&& plan.backend == Backend::Tmux ==> plan.interactive == interaction
            &&& plan.backend == Backend::Tmux ==> !plan.agent_first
            &&& plan.backend == Backend::Direct ==> plan.attach && plan.interactive
            &&& plan.backend == Backend::Direct ==> plan.agent_first == !interaction
        },
{
}

/// Somebody can be asked exactly if both ends are a terminal and it was not ruled out.
pub proof fn interaction_takes_a_terminal(
    no_interactive: bool,
    stdin_is_terminal: bool,
    stderr_is_terminal: bool,
)
    ensures
        interactive(no_interactive, stdin_is_terminal, stderr_is_terminal) <==> stdin_is_terminal
            && stderr_is_terminal && !no_interactive,
{
}

/// All names that go on from what was typed are offered, in their order, and no others.
pub proof fn completions_go_on_from_what_was_typed(
    names: Seq<Seq<char>>,
    typed: Seq<char>,
    more: Seq<char>,
    name: Seq<char>,
)
    ensures
        completions(names.push(typed + more), typed) == completions(names, typed).push(
            typed + more,
        ),
        !text::starts_with(name, typed) ==> completions(names.push(name), typed) == completions(
            names,
            typed,
        ),
        completions(Seq::empty(), typed) == Seq::<Seq<char>>::empty(),
{
    reveal(Seq::filter);
    assert((typed + more).take(typed.len() as int) =~= typed);
    assert(names.push(typed + more).drop_last() =~= names);
    assert(names.push(name).drop_last() =~= names);
}

} // verus!
