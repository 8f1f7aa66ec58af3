//! The per-alert fan-out protocol as a state machine: try to start a
//! recording, wait for an end-of-message signal or the timeout, stop
//! the recording, notify, and decide whether to relay.
//!
//! The surrounding tasks perform the waiting and the I/O; they feed
//! each outcome back as an event and follow the state the machine
//! returns.

use vstd::prelude::*;

verus! {

/// Where a per-alert task stands in its protocol.
#[derive(Clone, Copy, Debug, PartialEq, Eq, Structural)]
pub enum TaskPhase {
    /// Asking the coordinator for the recording slot.
    StartRecording,
    /// Recording; waiting for an end-of-message signal or the timeout.
    AwaitEnd,
    /// Taking the slot back and closing the encoder's input.
    StopRecording,
    /// Handing the alert to the notification sink.
    Notify { recorded: bool },
    /// Consulting the relay rules.
    RelayCheck { recorded: bool },
    /// Finished.
    Done,
}

/// What the surrounding task observed.
#[derive(Clone, Copy, Debug, PartialEq, Eq, Structural)]
pub enum TaskEvent {
    /// The slot was free and a recording started.
    RecordingStarted,
    /// The slot was occupied or starting failed; nothing records.
    RecordingUnavailable,
    /// An end-of-message signal arrived, from any source.
    EndOfMessage,
    /// No end-of-message signal arrived within the timeout.
    TimedOut,
    /// The slot was taken back and held a recording.
    SlotTaken,
    /// The slot was empty when the task came back for it.
    SlotMissing,
    /// The notification attempt finished, successfully or not.
    NotifyFinished,
    /// The relay step finished, was skipped, or failed.
    RelayFinished,
}

/// The transition table of the fan-out protocol.  An event that does
/// not belong to the current phase leaves the phase unchanged.
pub open spec fn spec_task_step(phase: TaskPhase, event: TaskEvent) -> TaskPhase {
    match (phase, event) {
        (TaskPhase::StartRecording, TaskEvent::RecordingStarted) => TaskPhase::AwaitEnd,
        (TaskPhase::StartRecording, TaskEvent::RecordingUnavailable) => TaskPhase::Notify {
            recorded: false,
        },
        (TaskPhase::AwaitEnd, TaskEvent::EndOfMessage) => TaskPhase::StopRecording,
        (TaskPhase::AwaitEnd, TaskEvent::TimedOut) => TaskPhase::StopRecording,
        (TaskPhase::StopRecording, TaskEvent::SlotTaken) => TaskPhase::Notify { recorded: true },
        (TaskPhase::StopRecording, TaskEvent::SlotMissing) => TaskPhase::Notify {
            recorded: false,
        },
        (TaskPhase::Notify { recorded }, TaskEvent::NotifyFinished) => TaskPhase::RelayCheck {
            recorded,
        },
        (TaskPhase::RelayCheck { recorded: _ }, TaskEvent::RelayFinished) => TaskPhase::Done,
        (_, _) => phase,
    }
}

/// Advances the per-alert protocol by one observed event.
pub fn task_step(phase: TaskPhase, event: TaskEvent) -> (next: TaskPhase)
    ensures
        next == spec_task_step(phase, event),
{
    match (phase, event) {
        (TaskPhase::StartRecording, TaskEvent::RecordingStarted) => TaskPhase::AwaitEnd,
        (TaskPhase::StartRecording, TaskEvent::RecordingUnavailable) => TaskPhase::Notify {
            recorded: false,
        },
        (TaskPhase::AwaitEnd, TaskEvent::EndOfMessage) => TaskPhase::StopRecording,
        (TaskPhase::AwaitEnd, TaskEvent::TimedOut) => TaskPhase::StopRecording,
        (TaskPhase::StopRecording, TaskEvent::SlotTaken) => TaskPhase::Notify { recorded: true },
        (TaskPhase::StopRecording, TaskEvent::SlotMissing) => TaskPhase::Notify {
            recorded: false,
        },
        (TaskPhase::Notify { recorded }, TaskEvent::NotifyFinished) => TaskPhase::RelayCheck {
            recorded,
        },
        (TaskPhase::RelayCheck { recorded: _ }, TaskEvent::RelayFinished) => TaskPhase::Done,
        (_, _) => phase,
    }
}

/// The recording wait never outlasts its two exits: an end-of-message
/// signal and the timeout both conclude it, so the timeout fires
/// whenever no signal arrives.
pub proof fn lemma_wait_concludes()
    ensures
        spec_task_step(TaskPhase::AwaitEnd, TaskEvent::EndOfMessage) == TaskPhase::StopRecording,
        spec_task_step(TaskPhase::AwaitEnd, TaskEvent::TimedOut) == TaskPhase::StopRecording,
{
}

} // verus!
