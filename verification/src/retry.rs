//! How long to wait before asking for an event stream again.

use vstd::prelude::*;

verus! {

/// Why an event stream could not be opened.
#[derive(Clone, Copy, Debug, PartialEq, Eq, Structural)]
pub enum StreamError {
    /// The messaging backend has not finished starting up. Expected while the
    /// client launches; goes away by itself.
    NotReady,
    /// Anything else.
    Other,
}

/// The two waits of the retry policy.
#[derive(Clone, Copy, Debug, PartialEq, Eq, Structural)]
pub enum Backoff {
    /// A few milliseconds, for a backend that is still starting.
    Short,
    /// Minutes, so that a persistent fault is not retried in a hot loop.
    Long,
}

/// Length of the short wait, in milliseconds.
pub const SHORT_BACKOFF_MILLIS: u64 = 10;

/// Length of the long wait, in milliseconds: five minutes.
pub const LONG_BACKOFF_MILLIS: u64 = 300_000;

impl Backoff {
    /// The wait in milliseconds.
    pub open spec fn spec_millis(self) -> u64 {
        match self {
            Backoff::Short => SHORT_BACKOFF_MILLIS,
            Backoff::Long => LONG_BACKOFF_MILLIS,
        }
    }

    /// The wait in milliseconds.
    #[verifier::when_used_as_spec(spec_millis)]
    pub fn millis(self) -> (ms: u64)
        ensures
            ms == self.spec_millis(),
    {
        match self {
            Backoff::Short => SHORT_BACKOFF_MILLIS,
            Backoff::Long => LONG_BACKOFF_MILLIS,
        }
    }
}

/// The wait that follows a failed attempt to open a stream.
pub open spec fn backoff_for(error: StreamError) -> Backoff {
    match error {
        StreamError::NotReady => Backoff::Short,
        StreamError::Other => Backoff::Long,
    }
}

/// Picks the wait that follows a failed attempt to open a stream: short when
/// the backend is not ready yet, long for every other failure. No failure is
/// fatal; each is followed by another attempt.
pub fn backoff_after(error: StreamError) -> (wait: Backoff)
    ensures
        wait == backoff_for(error),
        wait.millis() == if error == StreamError::NotReady {
            SHORT_BACKOFF_MILLIS
        } else {
            LONG_BACKOFF_MILLIS
        },
{
    match error {
        StreamError::NotReady => Backoff::Short,
        StreamError::Other => Backoff::Long,
    }
}

} // verus!
