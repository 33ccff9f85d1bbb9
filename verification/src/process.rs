//! Programs that are run: what they are run with, and how they end.

use vstd::prelude::*;

use crate::bytes;
use crate::error;
use crate::error::{command_error, ErrorModel, ToolError};
use crate::layout;

verus! {

/// How a program has ended.
#[derive(Debug)]
pub struct CommandOutput {
    pub success: bool,
    pub code: Option<i32>,
    /// The status as it is shown to people.
    pub status: String,
    pub stdout: Vec<u8>,
    pub stderr: Vec<u8>,
}

#[verifier::ext_equal]
pub struct OutputModel {
    pub success: bool,
    pub code: Option<i32>,
    pub status: Seq<char>,
    pub stdout: Seq<u8>,
    pub stderr: Seq<u8>,
}

impl View for CommandOutput {
    type V = OutputModel;

    open spec fn view(&self) -> OutputModel {
        OutputModel {
            success: self.success,
            code: self.code,
            status: self.status@,
            stdout: self.stdout@,
            stderr: self.stderr@,
        }
    }
}

/// The error for a program that ended without success.
pub open spec fn failure(program: Seq<char>, output: OutputModel) -> ErrorModel {
    ErrorModel::Command {
        program,
        detail: error::failure_detail(output.stdout, output.stderr, output.status),
    }
}

impl CommandOutput {
    pub fn error(&self, program: &str) -> (e: ToolError)
        ensures
            e@ == failure(program@, self@),
    {
        command_error(
            program,
            self.stdout.as_slice(),
            self.stderr.as_slice(),
            self.status.as_str(),
        )
    }
}

/// A program to run.
#[derive(Debug)]
pub struct Invocation {
    pub program: Vec<u8>,
    /// Where to run it, if not here.
    pub directory: Option<Vec<u8>>,
    pub arguments: Vec<Vec<u8>>,
}

#[verifier::ext_equal]
pub struct InvocationModel {
    pub program: Seq<u8>,
    pub directory: Option<Seq<u8>>,
    pub arguments: Seq<Seq<u8>>,
}

impl View for Invocation {
    type V = InvocationModel;

    open spec fn view(&self) -> InvocationModel {
        InvocationModel {
            program: self.program@,
            directory: layout::optional_bytes(self.directory),
            arguments: bytes::byte_views(self.arguments@),
        }
    }
}

} // verus!
