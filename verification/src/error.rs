//! The failures that the machine reports to its caller.

use vstd::prelude::*;
use vstd::std_specs::convert::FromSpecImpl;

verus! {

/// `std::io::Error`, the standard library's I/O error. The library carries such a
/// value from where it arose to the caller and never looks inside.
#[verifier::external_type_specification]
#[verifier::external_body]
pub struct ExIoError(std::io::Error);

/// Everything that can end a session with the machine.
#[derive(Debug)]
pub enum Error {
    /// The source text could not be obtained; holds the reason.
    SourceFileError(&'static str),
    /// A byte that is not one of the eight commands; holds that byte.
    InvalidInstruction(u8),
    /// The program was rejected or its run was cut short.
    ExecutionError(ExecutionError),
}

/// What can go wrong once a program has been handed to the machine.
#[derive(Debug)]
pub enum ExecutionError {
    /// A loop bracket without a partner; holds its index in the instruction sequence.
    UnexpectedBracket(usize),
    /// Input could not be read or output could not be written.
    IoError(std::io::Error),
}

impl From<ExecutionError> for Error {
    fn from(error: ExecutionError) -> (wrapped: Error) {
        Error::ExecutionError(error)
    }
}

impl FromSpecImpl<ExecutionError> for Error {
    open spec fn obeys_from_spec() -> bool {
        true
    }

    open spec fn from_spec(error: ExecutionError) -> Error {
        Error::ExecutionError(error)
    }
}

} // verus!
