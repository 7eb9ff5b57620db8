//! Reporting a failed send on a channel to the host.
use vstd::prelude::*;

verus! {

/// `std::sync::mpsc::SendError`, carried through opaque: what a send to a
/// closed channel gives back.
#[verifier::external_type_specification]
#[verifier::external_body]
#[verifier::reject_recursive_types(T)]
pub struct ExSendError<T>(std::sync::mpsc::SendError<T>);

/// A channel to the host was closed when a task tried to send on it.
#[derive(Debug, Clone, Copy, PartialEq, Eq, Structural)]
pub struct ChannelError;

impl ChannelError {
    /// The text that describes the error.
    pub fn message(&self) -> (m: String)
        ensures
            m@ == "Channel TX Error"@,
    {
        "Channel TX Error".to_owned()
    }
}

/// Turns the result of a send on a channel to the host into a plain
/// channel error, dropping the message that could not be sent.
pub fn eh<T>(r: Result<(), std::sync::mpsc::SendError<T>>) -> (res: Result<(), ChannelError>)
    ensures
        res is Ok <==> r is Ok,
{
    match r {
        Ok(()) => Ok(()),
        Err(_) => Err(ChannelError),
    }
}

} // verus!
