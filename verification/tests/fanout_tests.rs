use eas_listener::fanout::{task_step, TaskEvent, TaskPhase};
use eas_listener::recording::{RecordingCoordinator, RecordingSlot, RECORDING_TIMEOUT_SECS};

fn slot(source: &str) -> RecordingSlot<u32> {
    RecordingSlot {
        audio_tx: 7,
        output_path: String::from("/tmp/alert.ogg"),
        source_stream: String::from(source),
    }
}

#[test]
fn recording_timeout_is_five_minutes() {
    assert_eq!(RECORDING_TIMEOUT_SECS, 300);
}

#[test]
fn timeout_concludes_the_wait() {
    // With no end-of-message signal, the timeout alone moves the task on.
    let next = task_step(TaskPhase::AwaitEnd, TaskEvent::TimedOut);
    assert_eq!(next, TaskPhase::StopRecording);
}

#[test]
fn end_of_message_concludes_the_wait() {
    let next = task_step(TaskPhase::AwaitEnd, TaskEvent::EndOfMessage);
    assert_eq!(next, TaskPhase::StopRecording);
}

#[test]
fn full_protocol_with_recording() {
    let mut phase = TaskPhase::StartRecording;
    phase = task_step(phase, TaskEvent::RecordingStarted);
    assert_eq!(phase, TaskPhase::AwaitEnd);
    phase = task_step(phase, TaskEvent::EndOfMessage);
    assert_eq!(phase, TaskPhase::StopRecording);
    phase = task_step(phase, TaskEvent::SlotTaken);
    assert_eq!(phase, TaskPhase::Notify { recorded: true });
    phase = task_step(phase, TaskEvent::NotifyFinished);
    assert_eq!(phase, TaskPhase::RelayCheck { recorded: true });
    phase = task_step(phase, TaskEvent::RelayFinished);
    assert_eq!(phase, TaskPhase::Done);
}

#[test]
fn protocol_without_recording_skips_the_wait() {
    let mut phase = TaskPhase::StartRecording;
    phase = task_step(phase, TaskEvent::RecordingUnavailable);
    assert_eq!(phase, TaskPhase::Notify { recorded: false });
    phase = task_step(phase, TaskEvent::NotifyFinished);
    assert_eq!(phase, TaskPhase::RelayCheck { recorded: false });
}

#[test]
fn foreign_events_leave_the_phase_alone() {
    let phase = task_step(TaskPhase::AwaitEnd, TaskEvent::NotifyFinished);
    assert_eq!(phase, TaskPhase::AwaitEnd);
}

#[test]
fn second_recording_attempt_is_refused() {
    // Two alerts race for the recorder: the first wins, the second
    // proceeds without a recording.
    let mut coordinator: RecordingCoordinator<u32> = RecordingCoordinator::new();
    assert!(coordinator.try_start(slot("stream-one")).is_ok());
    let refused = coordinator.try_start(slot("stream-two"));
    let back = refused.expect_err("the slot is occupied");
    assert_eq!(back.source_stream, "stream-two");
    assert!(coordinator.is_recording());
}

#[test]
fn slot_is_pinned_to_its_source() {
    let mut coordinator: RecordingCoordinator<u32> = RecordingCoordinator::new();
    assert!(coordinator.try_start(slot("stream-one")).is_ok());
    assert_eq!(coordinator.sender_for("stream-one"), Some(&7));
    assert_eq!(coordinator.sender_for("stream-two"), None);
}

#[test]
fn taking_the_slot_frees_it() {
    let mut coordinator: RecordingCoordinator<u32> = RecordingCoordinator::new();
    assert!(coordinator.try_start(slot("stream-one")).is_ok());
    let taken = coordinator.take().expect("a recording was live");
    assert_eq!(taken.output_path, "/tmp/alert.ogg");
    assert!(!coordinator.is_recording());
    assert!(coordinator.take().is_none());
}
