use vstd::prelude::*;

verus! {

#[verifier::external_type_specification]
#[verifier::external_body]
pub struct ExIoError(std::io::Error);

/// Why a terminal session could not be started or driven.
#[derive(Debug)]
pub enum TerminalSessionError {
    /// Creating the pseudo terminal or the event loop failed.
    Io(std::io::Error),
    /// The event loop no longer accepts messages; the message says why.
    EventLoop(String),
    /// The thread that drives the pseudo terminal panicked.
    WorkerPanicked,
}

/// Whether a wakeup from the terminal is passed on to the session's owner,
/// given whether one was already pending: a wakeup is passed on only when
/// none is pending, so at most one is passed on between two
/// acknowledgements (the pending flag is set by every wakeup and cleared by
/// the owner's acknowledgement).
pub fn wakeup_to_emit(was_pending: bool) -> (emit: bool)
    ensures
        emit == !was_pending,
{
    !was_pending
}

} // verus!
