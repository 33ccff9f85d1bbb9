//! What can go wrong, and how it is reported.

use vstd::prelude::*;
#[allow(unused_imports)]
use vstd::string::*;

use crate::bytes;
use crate::bytes::lossy_text;
use crate::text;
use crate::text::trimmed;

verus! {

/// A failed file system or process operation.
#[derive(Debug)]
pub struct IoFailure {
    /// The thing that was to be used does not exist.
    pub not_found: bool,
    pub detail: String,
}

#[derive(Debug)]
pub enum ToolError {
    Message(String),
    Io(IoFailure),
    ConfigParse(String),
    ConfigSerialize(String),
    Command { program: String, detail: String },
    AgentSelectionUnavailable,
}

#[verifier::ext_equal]
pub enum ErrorModel {
    Message(Seq<char>),
    Io { not_found: bool, detail: Seq<char> },
    ConfigParse(Seq<char>),
    ConfigSerialize(Seq<char>),
    Command { program: Seq<char>, detail: Seq<char> },
    AgentSelectionUnavailable,
}

impl View for ToolError {
    type V = ErrorModel;

    open spec fn view(&self) -> ErrorModel {
        match self {
            ToolError::Message(message) => ErrorModel::Message(message@),
            ToolError::Io(failure) => ErrorModel::Io {
                not_found: failure.not_found,
                detail: failure.detail@,
            },
            ToolError::ConfigParse(detail) => ErrorModel::ConfigParse(detail@),
            ToolError::ConfigSerialize(detail) => ErrorModel::ConfigSerialize(detail@),
            ToolError::Command { program, detail } => ErrorModel::Command {
                program: program@,
                detail: detail@,
            },
            ToolError::AgentSelectionUnavailable => ErrorModel::AgentSelectionUnavailable,
        }
    }
}

/// What a user sees of an error.
pub open spec fn error_text(error: ErrorModel) -> Seq<char> {
    match error {
        ErrorModel::Message(message) => message,
        ErrorModel::Io { not_found: _, detail } => "I/O error: "@ + detail,
        ErrorModel::ConfigParse(detail) => "configuration parse error: "@ + detail,
        ErrorModel::ConfigSerialize(detail) => "configuration serialization error: "@ + detail,
        ErrorModel::Command { program, detail } => program + " failed: "@ + detail,
        ErrorModel::AgentSelectionUnavailable =>
            "non-interactive run requires an agent; pass --agent, set DAVID_AGENT or configure default_agent"@,
    }
}

/// An error that consists of nothing but this message.
pub open spec fn is_message(error: ToolError, message: Seq<char>) -> bool {
    error@ == ErrorModel::Message(message)
}

impl ToolError {
    pub fn text(&self) -> (out: String)
        ensures
            out@ == error_text(self@),
    {
        match self {
            ToolError::Message(message) => message.clone(),
            ToolError::Io(failure) => {
                let mut out: String = "I/O error: ".to_owned();
                out.append(failure.detail.as_str());
                out
            },
            ToolError::ConfigParse(detail) => {
                let mut out: String = "configuration parse error: ".to_owned();
                out.append(detail.as_str());
                out
            },
            ToolError::ConfigSerialize(detail) => {
                let mut out: String = "configuration serialization error: ".to_owned();
                out.append(detail.as_str());
                out
            },
            ToolError::Command { program, detail } => {
                let mut out: String = program.clone();
                out.append(" failed: ");
                out.append(detail.as_str());
                out
            },
            ToolError::AgentSelectionUnavailable => {
                "non-interactive run requires an agent; pass --agent, set DAVID_AGENT or configure default_agent".to_owned()
            },
        }
    }

    pub fn copy(&self) -> (out: ToolError)
        ensures
            out@ == self@,
    {
        match self {
            ToolError::Message(message) => ToolError::Message(message.clone()),
            ToolError::Io(failure) => ToolError::Io(
                IoFailure { not_found: failure.not_found, detail: failure.detail.clone() },
            ),
            ToolError::ConfigParse(detail) => ToolError::ConfigParse(detail.clone()),
            ToolError::ConfigSerialize(detail) => ToolError::ConfigSerialize(detail.clone()),
            ToolError::Command { program, detail } => ToolError::Command {
                program: program.clone(),
                detail: detail.clone(),
            },
            ToolError::AgentSelectionUnavailable => ToolError::AgentSelectionUnavailable,
        }
    }

    /// The process status for an error: 2 when no agent could be selected,
    /// 1 for everything else.
    pub fn exit_code(&self) -> (code: i32)
        ensures
            code == (if *self is AgentSelectionUnavailable {
                2i32
            } else {
                1i32
            }),
    {
        match self {
            ToolError::AgentSelectionUnavailable => 2,
            _ => 1,
        }
    }
}

pub fn message(text: &str) -> (error: ToolError)
    ensures
        is_message(error, text@),
{
    ToolError::Message(text.to_owned())
}

/// A message made of two texts.
pub fn message2(a: &str, b: &str) -> (error: ToolError)
    ensures
        is_message(error, a@ + b@),
{
    let mut text: String = a.to_owned();
    text.append(b);
    ToolError::Message(text)
}

/// A message made of three texts.
pub fn message3(a: &str, b: &str, c: &str) -> (error: ToolError)
    ensures
        is_message(error, a@ + b@ + c@),
{
    let mut text: String = a.to_owned();
    text.append(b);
    text.append(c);
    ToolError::Message(text)
}

/// A message made of four texts.
pub fn message4(a: &str, b: &str, c: &str, d: &str) -> (error: ToolError)
    ensures
        is_message(error, a@ + b@ + c@ + d@),
{
    let mut text: String = a.to_owned();
    text.append(b);
    text.append(c);
    text.append(d);
    ToolError::Message(text)
}

/// What a failed program has to say: its standard error, or else its standard
/// output, or else its status.
pub open spec fn failure_detail(stdout: Seq<u8>, stderr: Seq<u8>, status: Seq<char>) -> Seq<char> {
    let complaint = text::trim(bytes::utf8_lossy(stderr));
    let output = text::trim(bytes::utf8_lossy(stdout));
    if complaint.len() > 0 {
        complaint
    } else if output.len() > 0 {
        output
    } else {
        "exited with status "@ + status
    }
}

/// The error for a program that ended without success.
pub fn command_error(program: &str, stdout: &[u8], stderr: &[u8], status: &str) -> (error: ToolError)
    ensures
        error@ == (ErrorModel::Command {
            program: program@,
            detail: failure_detail(stdout@, stderr@, status@),
        }),
{
    let complaint: String = trimmed(lossy_text(stderr).as_str());
    let output: String = trimmed(lossy_text(stdout).as_str());
    let detail: String = if !complaint.as_str().is_empty() {
        complaint
    } else if !output.as_str().is_empty() {
        output
    } else {
        status_detail(status)
    };
    ToolError::Command { program: program.to_owned(), detail }
}

pub fn status_detail(status: &str) -> (detail: String)
    ensures
        detail@ == "exited with status "@ + status@,
{
    let mut detail: String = "exited with status ".to_owned();
    detail.append(status);
    detail
}

/// What a user sees of an error is its message, or what failed and why.
pub proof fn errors_say_what_failed(
    not_found: bool,
    program: Seq<char>,
    detail: Seq<char>,
)
    ensures
        error_text(ErrorModel::Message(detail)) == detail,
        error_text(ErrorModel::Io { not_found, detail }) == "I/O error: "@ + detail,
        error_text(ErrorModel::ConfigParse(detail)) == "configuration parse error: "@ + detail,
        error_text(ErrorModel::ConfigSerialize(detail)) == "configuration serialization error: "@
            + detail,
        error_text(ErrorModel::Command { program, detail }) == program + " failed: "@ + detail,
        error_text(ErrorModel::AgentSelectionUnavailable)
            == "non-interactive run requires an agent; pass --agent, set DAVID_AGENT or configure default_agent"@,
{
}

/// A program that fails is heard: by its standard error if there is anything on it,
/// or else by its standard output, and by its status only if it says nothing.
pub proof fn failures_are_told_by_the_program(
    stdout: Seq<u8>,
    stderr: Seq<u8>,
    status: Seq<char>,
)
    ensures
        !text::is_blank(bytes::utf8_lossy(stderr)) ==> failure_detail(stdout, stderr, status)
            == text::trim(bytes::utf8_lossy(stderr)),
        text::is_blank(bytes::utf8_lossy(stderr)) && !text::is_blank(bytes::utf8_lossy(stdout))
            ==> failure_detail(stdout, stderr, status) == text::trim(bytes::utf8_lossy(stdout)),
        text::is_blank(bytes::utf8_lossy(stderr)) && text::is_blank(bytes::utf8_lossy(stdout))
            ==> failure_detail(stdout, stderr, status) == "exited with status "@ + status,
{
    text::lemma_trim_blank(bytes::utf8_lossy(stderr));
    text::lemma_trim_blank(bytes::utf8_lossy(stdout));
}

/// What is reported as a message says exactly that.
pub proof fn messages_are_told_as_they_are(error: ToolError, message: Seq<char>)
    ensures
        is_message(error, message) ==> error is Message && error_text(error@) == message,
        is_message(ToolError::Message(error->Message_0), (error->Message_0)@),
{
}

} // verus!
