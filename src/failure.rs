//! Why a task ended in failure.
use vstd::prelude::*;

verus! {

/// The cause of a task's failure, as reported in the final tally.
#[derive(Debug, Clone)]
pub enum Failure {
    /// The source locator could not be parsed; the task was never scheduled.
    Configuration,
    /// The metadata probe could not reach the server.
    ProbeUnreachable(String),
    /// The metadata probe answered with neither a success nor a redirection.
    ProbeStatus(u16),
    /// The connection dropped or the body stream broke while streaming.
    Transfer(String),
    /// The destination could not be created, opened, positioned or written.
    Filesystem(String),
    /// The byte count of a transfer would no longer fit in 64 bits.
    SizeOverflow,
}

} // verus!
