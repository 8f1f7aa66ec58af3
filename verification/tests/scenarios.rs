//! End-to-end walks through the library's alert pipeline, driving the
//! pieces the way the surrounding tasks do.

use eas_listener::alerts::{
    is_alert_relevant, ActiveAlert, AlertSet, EasAlertData, StatusSignal,
};
use eas_listener::fanout::{task_step, TaskEvent, TaskPhase};
use eas_listener::recording::{RecordingCoordinator, RecordingSlot};
use eas_listener::relay::{FilterAction, RelayOutcome, RelayConfig, RelayState, Segment};

fn data(event_code: &str, fips: &[&str]) -> EasAlertData {
    EasAlertData {
        event_text: String::from("tornado warning"),
        event_code: String::from(event_code),
        originator: String::from("WXR"),
        fips: fips.iter().map(|f| String::from(*f)).collect(),
        locations: String::from("Los Angeles, CA"),
        eas_text: String::from("A Tornado Warning has been issued."),
    }
}

fn slot(source: &str) -> RecordingSlot<u8> {
    RecordingSlot {
        audio_tx: 1,
        output_path: String::from("/rec/alert.ogg"),
        source_stream: String::from(source),
    }
}

#[test]
fn single_alert_full_lifecycle() {
    let watched = vec![String::from("006037")];
    let raw = "ZCZC-WXR-TOR-006037+0030-0011200-TEST-";
    let alert_data = data("TOR", &["006037"]);

    // The alert manager finds the alert relevant and stores it.
    assert!(is_alert_relevant(&alert_data, &watched));
    let mut set = AlertSet::new();
    set.insert(ActiveAlert::new(alert_data, String::from(raw), 0, 1800), 0);
    assert_eq!(set.len(), 1);
    assert_eq!(set.derive_status(), StatusSignal::Severe);

    // The fan-out task starts the recording.
    let mut coordinator: RecordingCoordinator<u8> = RecordingCoordinator::new();
    let mut phase = TaskPhase::StartRecording;
    assert!(coordinator.try_start(slot("stream-one")).is_ok());
    phase = task_step(phase, TaskEvent::RecordingStarted);
    assert_eq!(phase, TaskPhase::AwaitEnd);

    // An end-of-message signal arrives; the recording stops.
    phase = task_step(phase, TaskEvent::EndOfMessage);
    assert_eq!(phase, TaskPhase::StopRecording);
    let finished = coordinator.take().expect("the recording was live");
    assert!(!coordinator.is_recording());
    phase = task_step(phase, TaskEvent::SlotTaken);
    assert_eq!(phase, TaskPhase::Notify { recorded: true });

    // The webhook gets the produced path; the relay runs with the
    // default rule.
    phase = task_step(phase, TaskEvent::NotifyFinished);
    assert_eq!(phase, TaskPhase::RelayCheck { recorded: true });
    let relay = RelayState::new(RelayConfig {
        should_relay: true,
        icecast_relay: String::from("icecast://relay"),
        icecast_intro: String::new(),
        icecast_outro: String::new(),
    })
    .unwrap();
    match relay.plan_relay("TOR", &Vec::new(), finished.output_path.as_str()).unwrap() {
        RelayOutcome::Bundle(plan) => {
            assert_eq!(plan.len(), 1);
            assert!(matches!(&plan[0], Segment::File(p) if p == "/rec/alert.ogg"));
        }
        RelayOutcome::Skipped(_) => panic!("the default filter action is relay"),
    }
    phase = task_step(phase, TaskEvent::RelayFinished);
    assert_eq!(phase, TaskPhase::Done);
}

#[test]
fn non_watched_zone_changes_nothing() {
    let watched = vec![String::from("006037")];
    let alert_data = data("TOR", &["048201"]);
    assert!(!is_alert_relevant(&alert_data, &watched));
    // The manager discards the alert: no insert, no recording, no webhook.
}

#[test]
fn universal_zone_is_treated_as_relevant() {
    let watched = vec![String::from("006037")];
    assert!(is_alert_relevant(&data("TOR", &["000000"]), &watched));
}

#[test]
fn concurrent_alerts_share_one_recorder() {
    // Two relevant alerts from two sources within a second: both enter
    // the active set; only the first records.
    let mut set = AlertSet::new();
    set.insert(
        ActiveAlert::new(
            data("TOR", &["006037"]),
            String::from("ZCZC-WXR-TOR-006037+0030-0011200-ONE -"),
            10,
            1800,
        ),
        10,
    );
    set.insert(
        ActiveAlert::new(
            data("SVR", &["006037"]),
            String::from("ZCZC-WXR-SVR-006037+0030-0011200-TWO -"),
            11,
            1800,
        ),
        11,
    );
    assert_eq!(set.len(), 2);

    let mut coordinator: RecordingCoordinator<u8> = RecordingCoordinator::new();
    assert!(coordinator.try_start(slot("stream-one")).is_ok());
    let second = coordinator.try_start(slot("stream-two"));
    assert!(second.is_err());

    // The first task's protocol proceeds with the recording, the
    // second task's without one.
    let first = task_step(TaskPhase::StartRecording, TaskEvent::RecordingStarted);
    assert_eq!(first, TaskPhase::AwaitEnd);
    let second_phase = task_step(TaskPhase::StartRecording, TaskEvent::RecordingUnavailable);
    assert_eq!(second_phase, TaskPhase::Notify { recorded: false });

    // Only the slot's own source may feed it.
    assert!(coordinator.sender_for("stream-one").is_some());
    assert!(coordinator.sender_for("stream-two").is_none());
}
