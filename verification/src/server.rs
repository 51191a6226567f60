//! What the accept loop does next.

use vstd::prelude::*;

verus! {

/// Milliseconds that the accept loop rests after a failure to accept.
pub const ACCEPT_BACKOFF_MILLIS: u64 = 100;

/// What the accept loop waits for.
#[derive(Debug, Clone, Copy, PartialEq, Eq, Structural)]
pub enum AcceptEvent {
    /// The gateway is to shut down.
    ShutdownRequested,
    /// A connection was accepted.
    Accepted,
    /// A connection could not be accepted.
    Failed,
}

/// What the accept loop does.
#[derive(Debug, Clone, Copy, PartialEq, Eq, Structural)]
pub enum AcceptStep {
    /// It serves the connection, and goes on accepting.
    Serve,
    /// It rests for so many milliseconds, and goes on accepting.
    Rest(u64),
    /// It stops accepting; open connections get so many seconds to finish, and are cut off then.
    Drain(u64),
}

/// What the accept loop does when something happens.
pub open spec fn accept_step_of(event: AcceptEvent, shutdown_timeout: u64) -> AcceptStep {
    match event {
        AcceptEvent::ShutdownRequested => AcceptStep::Drain(shutdown_timeout),
        AcceptEvent::Accepted => AcceptStep::Serve,
        AcceptEvent::Failed => AcceptStep::Rest(ACCEPT_BACKOFF_MILLIS),
    }
}

/// Decides what the accept loop does when something happens.
pub fn accept_step(event: AcceptEvent, shutdown_timeout: u64) -> (res: AcceptStep)
    ensures
        res == accept_step_of(event, shutdown_timeout),
{
    match event {
        AcceptEvent::ShutdownRequested => AcceptStep::Drain(shutdown_timeout),
        AcceptEvent::Accepted => AcceptStep::Serve,
        AcceptEvent::Failed => AcceptStep::Rest(ACCEPT_BACKOFF_MILLIS),
    }
}

} // verus!
