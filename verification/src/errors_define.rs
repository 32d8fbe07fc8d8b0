//! The failures that the framing and dispatch layers report.

use vstd::prelude::*;

verus! {

/// What went wrong while a connection was being served.
#[derive(Clone, Copy, Debug, PartialEq, Eq, Structural)]
pub enum ErrorKind {
    /// A frame is malformed, for instance its length field asks for more
    /// payload than the receiver accepts.
    ProtocolViolation,
    /// No handler is registered for the command of a decoded frame.
    UnknownCommand,
    /// A handler is already registered for the command.
    DuplicateRegistration,
    /// Reading from or writing to the socket failed.
    IoError,
    /// A payload does not follow the schema of its command.
    SerializationError,
}

/// A failure inside the business modules, with a message for the log.
#[allow(non_camel_case_types)]
#[derive(Clone, Debug, PartialEq, Eq)]
pub enum r_error {
    /// A module was wired or used in a way that it does not support.
    InternalError(String),
    /// A handler could not be registered.
    HandlerRegistryFail(String),
    /// A login could not be carried out.
    LoginFail(String),
}

/// `std::fmt::Error`, the error of the storage, chat and socket modules. Nothing is
/// claimed of it: the type says nothing but that an operation failed, and the
/// library only passes it through.
#[verifier::external_type_specification]
#[verifier::external_body]
pub struct ExFmtError(std::fmt::Error);

} // verus!
