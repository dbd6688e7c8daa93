//! Error taxonomy of the gateway core, and the fixed table of user-facing
//! messages that each backend error is mapped to.

use vstd::prelude::*;

verus! {

/// Errors a backend `connect` can fail with. No session entry is ever
/// created for a failed connection attempt.
#[derive(Clone, Copy, PartialEq, Eq, Structural, Debug)]
pub enum ConnectError {
    AddressParse,
    IoFailure,
    DecodeFailure,
    EncodeFailure,
    UnexpectedPacket,
    AuthenticationFailed,
    ServerError,
}

/// Errors a backend `execute` can fail with: the `connect` set without
/// `AuthenticationFailed`. The session and its connection stay valid.
#[derive(Clone, Copy, PartialEq, Eq, Structural, Debug)]
pub enum ExecError {
    IoFailure,
    DecodeFailure,
    EncodeFailure,
    UnexpectedPacket,
    ServerError,
}

/// The user-facing message for each `connect` error.
pub open spec fn spec_connect_message(e: ConnectError) -> Seq<char> {
    match e {
        ConnectError::AddressParse => "Could not connect to specified server."@,
        ConnectError::IoFailure => "Connection failure. Try again later."@,
        ConnectError::DecodeFailure => "Could not read data from server."@,
        ConnectError::EncodeFailure => "Could not send data to server."@,
        ConnectError::UnexpectedPacket => "Unexpected Package."@,
        ConnectError::AuthenticationFailed => "Authentication failed."@,
        ConnectError::ServerError => "Network Error."@,
    }
}

/// The user-facing message for each `execute` error.
pub open spec fn spec_exec_message(e: ExecError) -> Seq<char> {
    match e {
        ExecError::IoFailure => "Connection failure. Try again later."@,
        ExecError::DecodeFailure => "Could not read data from server."@,
        ExecError::EncodeFailure => "Could not send data to server."@,
        ExecError::UnexpectedPacket => "Received unexpected package."@,
        ExecError::ServerError => "Server error."@,
    }
}

/// Maps a `connect` error to its fixed user-facing message.
pub fn connect_error_message(e: &ConnectError) -> (r: &'static str)
    ensures
        r@ == spec_connect_message(*e),
{
    match e {
        ConnectError::AddressParse => "Could not connect to specified server.",
        ConnectError::IoFailure => "Connection failure. Try again later.",
        ConnectError::DecodeFailure => "Could not read data from server.",
        ConnectError::EncodeFailure => "Could not send data to server.",
        ConnectError::UnexpectedPacket => "Unexpected Package.",
        ConnectError::AuthenticationFailed => "Authentication failed.",
        ConnectError::ServerError => "Network Error.",
    }
}

/// Maps an `execute` error to its fixed user-facing message.
pub fn exec_error_message(e: &ExecError) -> (r: &'static str)
    ensures
        r@ == spec_exec_message(*e),
{
    match e {
        ExecError::IoFailure => "Connection failure. Try again later.",
        ExecError::DecodeFailure => "Could not read data from server.",
        ExecError::EncodeFailure => "Could not send data to server.",
        ExecError::UnexpectedPacket => "Received unexpected package.",
        ExecError::ServerError => "Server error.",
    }
}

} // verus!
