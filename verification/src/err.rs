//! Outcomes of the channel operations. Every condition is reported to the
//! caller through a result value; none of them aborts the process.

use vstd::prelude::*;

verus! {

/// Outcome of a non-blocking receive that found no value.
#[derive(Clone, Copy, Debug, PartialEq, Eq, Structural)]
pub enum TryRecvError {
    /// No value is currently available and the channel is still open.
    Empty,
    /// The channel is closed and nothing remains to be received.
    Disconnected,
}

/// Outcome of a blocking receive that returned without a value.
#[derive(Clone, Copy, Debug, PartialEq, Eq, Structural)]
pub enum RecvTimeoutError {
    /// The deadline elapsed before a value became available.
    Timeout,
    /// The channel is closed and nothing remains to be received.
    Disconnected,
}

/// Outcome of a failed non-blocking send; the rejected value is handed back.
#[derive(Debug)]
pub enum TrySendError<T> {
    /// The channel is closed; the value was not enqueued.
    Disconnected(T),
}

/// Outcome of a failed (possibly timed) send; the rejected value is handed back.
#[derive(Debug)]
pub enum SendTimeoutError<T> {
    /// The channel is closed; the value was not enqueued.
    Disconnected(T),
}

} // verus!
