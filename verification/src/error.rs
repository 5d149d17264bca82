//! The errors a dispatched call can end in.

use vstd::prelude::*;

verus! {

/// The error type of the protocol crate. Its contents are never read here:
/// a value is carried from the connection that produced it to the caller.
#[verifier::external_type_specification]
#[verifier::external_body]
pub struct ExProtocolError(rpcx_protocol::Error);

/// Why a call did not produce a reply.
#[derive(Debug)]
pub enum CallError {
    /// The selector had no server to offer.
    ServerNotFound,
    /// A connection that must be cached was not found in the cache.
    ClientNotFound,
    /// No connection to the selected server could be created and started.
    Connection(rpcx_protocol::Error),
    /// The connection was obtained and the call on it failed.
    Call(rpcx_protocol::Error),
}

/// The protocol error that `rpcx_protocol::Error::from(String)` builds from
/// a message.
pub uninterp spec fn message_error(msg: Seq<char>) -> rpcx_protocol::Error;

/// Calls `rpcx_protocol::Error::from(String)`, which stores the message as
/// it is. The contract claims only that the result is determined by the
/// message; nothing is proved of the protocol crate.
#[verifier::external_body]
fn error_from_message(msg: String) -> (e: rpcx_protocol::Error)
    ensures
        e == message_error(msg@),
{
    rpcx_protocol::Error::from(msg)
}

impl CallError {
    /// Whether a failure mode may answer this error with a further attempt.
    /// Errors that a connection reports may be retried; those that the
    /// dispatcher raises itself end the call at once.
    pub open spec fn spec_is_retryable(&self) -> bool {
        self is Connection || self is Call
    }

    /// Whether a failure mode may answer this error with a further attempt.
    #[verifier::when_used_as_spec(spec_is_retryable)]
    pub fn is_retryable(&self) -> (b: bool)
        ensures
            b == self.spec_is_retryable(),
    {
        match self {
            CallError::Connection(_) => true,
            CallError::Call(_) => true,
            _ => false,
        }
    }

    /// The message that stands for an error that carries no protocol error.
    pub open spec fn spec_message(self) -> Seq<char> {
        match self {
            CallError::ClientNotFound => "client still not found"@,
            _ => "server not found"@,
        }
    }

    /// This error as a protocol error: the carried one where there is one,
    /// else one built from the error's message.
    pub open spec fn spec_into_protocol(self) -> rpcx_protocol::Error {
        match self {
            CallError::Connection(e) => e,
            CallError::Call(e) => e,
            _ => message_error(self.spec_message()),
        }
    }

    /// Converts into the protocol crate's error type.
    pub fn into_protocol(self) -> (e: rpcx_protocol::Error)
        ensures
            e == self.spec_into_protocol(),
    {
        match self {
            CallError::Connection(e) => e,
            CallError::Call(e) => e,
            CallError::ServerNotFound => error_from_message("server not found".to_owned()),
            CallError::ClientNotFound => error_from_message("client still not found".to_owned()),
        }
    }
}

} // verus!
