//! The stream reader's life cycle as a state machine: an endlessly
//! retrying HTTP pull that feeds a bounded byte queue, declares a
//! silent connection dead, and reconnects after every failure.
//!
//! The network calls, the waiting, and the queue itself live outside
//! the library; they feed each observation back as an event and follow
//! the phase the machine returns.

use vstd::prelude::*;

verus! {

/// Seconds to wait before reconnecting after a failure.
pub const RECONNECT_DELAY_SECS: u64 = 1;

/// Where a stream reader stands.  It terminates only with the process.
#[derive(Clone, Copy, Debug, PartialEq, Eq, Structural)]
pub enum ReaderPhase {
    /// Issuing the HTTP request, or waiting out the retry delay.
    Connecting,
    /// The request succeeded; no audio has arrived yet.
    Connected,
    /// Audio chunks are flowing.
    Streaming,
    /// No chunk has arrived for a while; one more silence ends the
    /// connection.
    Stalled,
    /// The connection is gone; the reader reconnects next.
    Disconnected,
}

/// What the reader observed.
#[derive(Clone, Copy, Debug, PartialEq, Eq, Structural)]
pub enum ReaderEvent {
    /// The HTTP request failed or returned a non-success status.
    ConnectFailed,
    /// The HTTP request succeeded.
    Opened,
    /// An audio chunk arrived.
    ChunkArrived,
    /// The inactivity window elapsed without a chunk.
    InactivityElapsed,
    /// The server closed the stream.
    EndOfStream,
    /// Reading from the connection failed.
    TransportError,
    /// The decoder dropped its end of the byte queue.
    ConsumerClosed,
    /// The reconnect delay has passed.
    RetryDelayElapsed,
}

/// The transition table of the reader's life cycle.  A failed connect
/// keeps the reader connecting; silence first stalls and then ends the
/// connection; every ended connection comes back to connecting.
pub open spec fn spec_reader_step(phase: ReaderPhase, event: ReaderEvent) -> ReaderPhase {
    match (phase, event) {
        (ReaderPhase::Connecting, ReaderEvent::Opened) => ReaderPhase::Connected,
        (ReaderPhase::Connecting, ReaderEvent::ConnectFailed) => ReaderPhase::Connecting,
        (ReaderPhase::Connected, ReaderEvent::ChunkArrived) => ReaderPhase::Streaming,
        (ReaderPhase::Streaming, ReaderEvent::ChunkArrived) => ReaderPhase::Streaming,
        (ReaderPhase::Streaming, ReaderEvent::InactivityElapsed) => ReaderPhase::Stalled,
        (ReaderPhase::Stalled, ReaderEvent::ChunkArrived) => ReaderPhase::Streaming,
        (ReaderPhase::Stalled, ReaderEvent::InactivityElapsed) => ReaderPhase::Disconnected,
        (ReaderPhase::Connected, ReaderEvent::InactivityElapsed) => ReaderPhase::Stalled,
        (
            ReaderPhase::Connected
            | ReaderPhase::Streaming
            | ReaderPhase::Stalled,
            ReaderEvent::EndOfStream
            | ReaderEvent::TransportError
            | ReaderEvent::ConsumerClosed,
        ) => ReaderPhase::Disconnected,
        (ReaderPhase::Disconnected, ReaderEvent::RetryDelayElapsed) => ReaderPhase::Connecting,
        (_, _) => phase,
    }
}

/// Advances the reader's life cycle by one observed event.
pub fn reader_step(phase: ReaderPhase, event: ReaderEvent) -> (next: ReaderPhase)
    ensures
        next == spec_reader_step(phase, event),
{
    match (phase, event) {
        (ReaderPhase::Connecting, ReaderEvent::Opened) => ReaderPhase::Connected,
        (ReaderPhase::Connecting, ReaderEvent::ConnectFailed) => ReaderPhase::Connecting,
        (ReaderPhase::Connected, ReaderEvent::ChunkArrived) => ReaderPhase::Streaming,
        (ReaderPhase::Streaming, ReaderEvent::ChunkArrived) => ReaderPhase::Streaming,
        (ReaderPhase::Streaming, ReaderEvent::InactivityElapsed) => ReaderPhase::Stalled,
        (ReaderPhase::Stalled, ReaderEvent::ChunkArrived) => ReaderPhase::Streaming,
        (ReaderPhase::Stalled, ReaderEvent::InactivityElapsed) => ReaderPhase::Disconnected,
        (ReaderPhase::Connected, ReaderEvent::InactivityElapsed) => ReaderPhase::Stalled,
        (
            ReaderPhase::Connected
            | ReaderPhase::Streaming
            | ReaderPhase::Stalled,
            ReaderEvent::EndOfStream
            | ReaderEvent::TransportError
            | ReaderEvent::ConsumerClosed,
        ) => ReaderPhase::Disconnected,
        (ReaderPhase::Disconnected, ReaderEvent::RetryDelayElapsed) => ReaderPhase::Connecting,
        (_, _) => phase,
    }
}

/// The reader's life runs in a cycle and terminates only with the
/// process: each phase has an event that moves it on, and a lost
/// connection comes back to connecting.
pub proof fn lemma_reader_cycle()
    ensures
        spec_reader_step(ReaderPhase::Connecting, ReaderEvent::Opened) == ReaderPhase::Connected,
        spec_reader_step(ReaderPhase::Connected, ReaderEvent::ChunkArrived)
            == ReaderPhase::Streaming,
        spec_reader_step(ReaderPhase::Streaming, ReaderEvent::InactivityElapsed)
            == ReaderPhase::Stalled,
        spec_reader_step(ReaderPhase::Stalled, ReaderEvent::ChunkArrived)
            == ReaderPhase::Streaming,
        spec_reader_step(ReaderPhase::Stalled, ReaderEvent::InactivityElapsed)
            == ReaderPhase::Disconnected,
        spec_reader_step(ReaderPhase::Disconnected, ReaderEvent::RetryDelayElapsed)
            == ReaderPhase::Connecting,
{
}

} // verus!
