//! Delivering a prompt: the message goes to tmux on its standard input and never
//! becomes part of a command.

use vstd::prelude::*;
#[allow(unused_imports)]
use vstd::string::*;

use crate::bytes::utf8_of;
use crate::error::{message, ErrorModel, IoFailure, ToolError};
use crate::process::CommandOutput;
use crate::text;
use crate::text::decimal_text;
use crate::tmux;
use crate::tmux::{missing_program, output_error, CommandModel, TmuxCommand};

verus! {

/// A name for the buffer of a prompt: the process, and a number that it uses
/// only once.
pub open spec fn buffer_name(process: nat, number: nat) -> Seq<char> {
    "david-prompt-"@ + text::decimal(process) + "-"@ + text::decimal(number)
}

pub fn prompt_buffer_name(process: u32, number: u64) -> (name: String)
    ensures
        name@ == buffer_name(process as nat, number as nat),
{
    let mut name: String = "david-prompt-".to_owned();
    name.append(decimal_text(process as u128).as_str());
    name.append("-");
    name.append(decimal_text(number as u128).as_str());
    name
}

/// What it takes to deliver a message.
#[derive(Debug)]
pub struct Delivery {
    pub command: TmuxCommand,
    /// What the command gets on its standard input.
    pub input: Vec<u8>,
    /// The buffer that the message passes through; an empty message needs none.
    pub buffer: Option<String>,
}

/// The command that delivers a message to a pane.
pub open spec fn delivery_command(
    pane: Seq<char>,
    message: Seq<char>,
    buffer: Seq<char>,
) -> CommandModel {
    if message.len() == 0 {
        CommandModel::Enter { pane }
    } else {
        CommandModel::Paste { buffer, pane }
    }
}

pub fn delivery(pane: &str, message: &str, buffer: &str) -> (out: Delivery)
    ensures
        out.command@ == delivery_command(pane@, message@, buffer@),
        out.input@ == vstd::utf8::encode_utf8(message@),
        match out.buffer {
            Some(name) => message@.len() > 0 && name@ == buffer@,
            None => message@.len() == 0,
        },
{
    if message.is_empty() {
        Delivery {
            command: TmuxCommand::Enter { pane: pane.to_owned() },
            input: utf8_of(message),
            buffer: None,
        }
    } else {
        Delivery {
            command: TmuxCommand::Paste { buffer: buffer.to_owned(), pane: pane.to_owned() },
            input: utf8_of(message),
            buffer: Some(buffer.to_owned()),
        }
    }
}

/// How a delivery went.
#[derive(Debug)]
pub enum DeliveryEvent {
    /// The command could not be started.
    NotStarted(IoFailure),
    /// The command has no standard input.
    NoInput,
    /// The message could not be written.
    NotWritten(IoFailure),
    /// The end of the command could not be awaited.
    NotAwaited(IoFailure),
    Ended(CommandOutput),
}

/// The command is still running and has to be stopped.
pub open spec fn still_running(event: DeliveryEvent) -> bool {
    event is NoInput || event is NotWritten
}

/// What went wrong, if anything did.
pub open spec fn delivery_problem(event: DeliveryEvent) -> Option<ErrorModel> {
    match event {
        DeliveryEvent::NotStarted(failure) => Some(
            tmux::unavailable(failure.not_found, failure.detail@),
        ),
        DeliveryEvent::NoInput => Some(
            ErrorModel::Message("tmux prompt transport did not provide stdin"@),
        ),
        DeliveryEvent::NotWritten(failure) => Some(
            ErrorModel::Io { not_found: failure.not_found, detail: failure.detail@ },
        ),
        DeliveryEvent::NotAwaited(failure) => Some(
            ErrorModel::Io { not_found: failure.not_found, detail: failure.detail@ },
        ),
        DeliveryEvent::Ended(output) => if output.success {
            None
        } else {
            Some(tmux::tmux_failure(output@))
        },
    }
}

/// What is left to do after a delivery, and its result.
#[derive(Debug)]
pub struct DeliveryEnd {
    /// Stop the command.
    pub stop: bool,
    /// Delete the buffer, if there is one.
    pub forget: bool,
    pub result: Result<(), ToolError>,
}

pub fn delivered(event: DeliveryEvent) -> (end: DeliveryEnd)
    ensures
        end.stop == still_running(event),
        end.forget == (delivery_problem(event) is Some),
        match end.result {
            Ok(()) => delivery_problem(event) is None,
            Err(e) => delivery_problem(event) == Some(e@),
        },
{
    match event {
        DeliveryEvent::NotStarted(failure) => DeliveryEnd {
            stop: false,
            forget: true,
            result: Err(missing_program(failure)),
        },
        DeliveryEvent::NoInput => DeliveryEnd {
            stop: true,
            forget: true,
            result: Err(message("tmux prompt transport did not provide stdin")),
        },
        DeliveryEvent::NotWritten(failure) => DeliveryEnd {
            stop: true,
            forget: true,
            result: Err(ToolError::Io(failure)),
        },
        DeliveryEvent::NotAwaited(failure) => DeliveryEnd {
            stop: false,
            forget: true,
            result: Err(ToolError::Io(failure)),
        },
        DeliveryEvent::Ended(output) => if output.success {
            DeliveryEnd { stop: false, forget: false, result: Ok(()) }
        } else {
            DeliveryEnd { stop: false, forget: true, result: Err(output_error(&output)) }
        },
    }
}

/// The command is the same for all messages that are not empty: nothing of a
/// message can be taken for a command or for the name of a key.
pub proof fn messages_do_not_reach_the_command_line(
    pane: Seq<char>,
    buffer: Seq<char>,
    message: Seq<char>,
    other: Seq<char>,
)
    requires
        message.len() > 0,
        other.len() > 0,
    ensures
        tmux::tmux_arguments(delivery_command(pane, message, buffer)) == tmux::tmux_arguments(
            delivery_command(pane, other, buffer),
        ),
{
}

/// A message is pasted by way of a buffer of its own, and an empty one is only
/// submitted.
pub proof fn messages_are_pasted(pane: Seq<char>, message: Seq<char>, buffer: Seq<char>)
    ensures
        message.len() > 0 ==> delivery_command(pane, message, buffer) == (CommandModel::Paste {
            buffer,
            pane,
        }),
        message.len() == 0 ==> delivery_command(pane, message, buffer) == (CommandModel::Enter {
            pane,
        }),
{
}

/// A delivery goes well exactly if its command ended with success. A command that could
/// not be given the message is still running.
pub proof fn deliveries_need_a_good_end(event: DeliveryEvent)
    ensures
        delivery_problem(event) is None <==> (event matches DeliveryEvent::Ended(output)
            && output.success),
        still_running(event) <==> event is NoInput || event is NotWritten,
        event matches DeliveryEvent::NotWritten(failure) ==> delivery_problem(event) == Some(
            ErrorModel::Io { not_found: failure.not_found, detail: failure.detail@ },
        ),
        event matches DeliveryEvent::NotAwaited(failure) ==> delivery_problem(event) == Some(
            ErrorModel::Io { not_found: failure.not_found, detail: failure.detail@ },
        ),
        event matches DeliveryEvent::Ended(output) ==> delivery_problem(event) == (
        if output.success {
            None
        } else {
            Some(tmux::tmux_failure(output@))
        }),
        event matches DeliveryEvent::NotStarted(failure) ==> delivery_problem(event) == Some(
            tmux::unavailable(failure.not_found, failure.detail@),
        ),
        event is NoInput ==> delivery_problem(event) == Some(
            ErrorModel::Message("tmux prompt transport did not provide stdin"@),
        ),
{
}

/// The name of a buffer tells the process and the number of the prompt.
pub proof fn buffers_are_named_after_process_and_number(process: nat, number: nat)
    ensures
        buffer_name(process, number) == "david-prompt-"@ + text::decimal(process) + "-"@
            + text::decimal(number),
{
}

} // verus!
