use eas_listener::alerts::{
    is_alert_relevant, ActiveAlert, AlertSet, EasAlertData, StatusSignal,
};

fn data(event_code: &str, fips: &[&str]) -> EasAlertData {
    EasAlertData {
        event_text: String::from("Tornado Warning"),
        event_code: String::from(event_code),
        originator: String::from("WXR"),
        fips: fips.iter().map(|f| String::from(*f)).collect(),
        locations: String::from("Los Angeles, CA"),
        eas_text: String::from("A Tornado Warning has been issued."),
    }
}

fn alert(event_code: &str, header: &str, received_at: u64, purge_secs: u64) -> ActiveAlert {
    ActiveAlert::new(
        data(event_code, &["006037"]),
        String::from(header),
        received_at,
        purge_secs,
    )
}

#[test]
fn expiry_time_is_reception_plus_purge() {
    let a = alert("TOR", "ZCZC-WXR-TOR-006037+0030-0011200-TEST-", 1000, 1800);
    assert_eq!(a.received_at, 1000);
    assert_eq!(a.expires_at, 2800);
}

#[test]
fn expiry_time_saturates() {
    let a = alert("TOR", "ZCZC-WXR-TOR-006037+0030-0011200-TEST-", u64::MAX - 5, 1800);
    assert_eq!(a.expires_at, u64::MAX);
}

#[test]
fn insert_grows_until_expiry() {
    // Distinct headers with unique purge durations: the set grows
    // monotonically while nothing has expired.
    let mut set = AlertSet::new();
    for (i, purge) in [60u64, 120, 180, 240].iter().enumerate() {
        let header = format!("ZCZC-WXR-TOR-00603{}+0030-0011200-TEST-", i);
        set.insert(alert("TOR", &header, 0, *purge), 0);
        assert_eq!(set.len(), i + 1);
    }
}

#[test]
fn reinserted_header_refreshes_instead_of_duplicating() {
    let header = "ZCZC-WXR-TOR-006037+0030-0011200-TEST-";
    let mut set = AlertSet::new();
    set.insert(alert("TOR", header, 0, 600), 0);
    set.insert(alert("TOR", header, 100, 600), 100);
    assert_eq!(set.len(), 1);
    assert_eq!(set.alerts()[0].received_at, 100);
    assert_eq!(set.alerts()[0].expires_at, 700);
}

#[test]
fn cleanup_drops_expired_alerts() {
    let mut set = AlertSet::new();
    set.insert(alert("TOR", "ZCZC-WXR-TOR-006037+0030-0011200-TEST-", 0, 60), 0);
    set.insert(alert("SVA", "ZCZC-WXR-SVA-006037+0030-0011200-TEST-", 0, 600), 0);
    let removed = set.cleanup(61);
    assert_eq!(removed, 1);
    assert_eq!(set.len(), 1);
    assert_eq!(set.alerts()[0].data.event_code, "SVA");
}

#[test]
fn janitor_expiry_reconciles_status() {
    // Insert with purge 60s, advance the clock 61s: the next tick
    // removes the alert and the status goes back to neither.
    let mut set = AlertSet::new();
    set.insert(alert("TOR", "ZCZC-WXR-TOR-006037+0030-0011200-TEST-", 0, 60), 0);
    assert_eq!(set.derive_status(), StatusSignal::Severe);
    let removed = set.cleanup(61);
    assert_eq!(removed, 1);
    assert_eq!(set.len(), 0);
    assert_eq!(set.derive_status(), StatusSignal::Neither);
}

#[test]
fn expiry_boundary_is_inclusive() {
    // An alert whose expiry time equals the observation time is dropped:
    // the set keeps only alerts with expires_at strictly in the future.
    let mut set = AlertSet::new();
    set.insert(alert("TOR", "ZCZC-WXR-TOR-006037+0030-0011200-TEST-", 0, 100), 0);
    assert_eq!(set.cleanup(99), 0);
    assert_eq!(set.len(), 1);
    assert_eq!(set.cleanup(100), 1);
    assert_eq!(set.len(), 0);
}

#[test]
fn empty_watched_set_admits_all() {
    let watched: Vec<String> = Vec::new();
    assert!(is_alert_relevant(&data("TOR", &["048201"]), &watched));
    assert!(is_alert_relevant(&data("TOR", &[]), &watched));
}

#[test]
fn non_watched_zone_is_ignored() {
    let watched = vec![String::from("006037")];
    assert!(!is_alert_relevant(&data("TOR", &["048201"]), &watched));
}

#[test]
fn watched_zone_is_relevant() {
    let watched = vec![String::from("006037")];
    assert!(is_alert_relevant(&data("TOR", &["048201", "006037"]), &watched));
}

#[test]
fn universal_code_is_always_relevant() {
    let watched = vec![String::from("006037")];
    assert!(is_alert_relevant(&data("TOR", &["000000"]), &watched));
}

#[test]
fn empty_fips_list_is_irrelevant_for_nonempty_watch() {
    let watched = vec![String::from("006037")];
    assert!(!is_alert_relevant(&data("TOR", &[]), &watched));
}

#[test]
fn severe_codes_raise_severe() {
    for code in ["SVR", "TOR", "TOA"] {
        let mut set = AlertSet::new();
        let header = format!("ZCZC-WXR-{}-006037+0030-0011200-TEST-", code);
        set.insert(alert(code, &header, 0, 600), 0);
        assert_eq!(set.derive_status(), StatusSignal::Severe);
    }
}

#[test]
fn sva_alone_raises_rainy() {
    let mut set = AlertSet::new();
    set.insert(alert("SVA", "ZCZC-WXR-SVA-006037+0030-0011200-TEST-", 0, 600), 0);
    assert_eq!(set.derive_status(), StatusSignal::Rainy);
}

#[test]
fn unrelated_codes_raise_nothing() {
    let mut set = AlertSet::new();
    set.insert(alert("RWT", "ZCZC-WXR-RWT-006037+0030-0011200-TEST-", 0, 600), 0);
    assert_eq!(set.derive_status(), StatusSignal::Neither);
}

#[test]
fn severe_dominates_rainy() {
    let mut set = AlertSet::new();
    set.insert(alert("SVA", "ZCZC-WXR-SVA-006037+0030-0011200-TEST-", 0, 600), 0);
    set.insert(alert("TOR", "ZCZC-WXR-TOR-006037+0030-0011200-TEST-", 0, 600), 0);
    assert_eq!(set.derive_status(), StatusSignal::Severe);
}

#[test]
fn clock_driven_insert_and_purge() {
    let mut set = AlertSet::new();
    set.insert_now(
        data("TOR", &["006037"]),
        String::from("ZCZC-WXR-TOR-006037+0030-0011200-TEST-"),
        1800,
    );
    assert_eq!(set.len(), 1);
    assert!(set.alerts()[0].expires_at >= set.alerts()[0].received_at);
    // Nothing expires within its purge window.
    let removed = set.purge_expired_now();
    assert_eq!(removed, 0);
    assert_eq!(set.len(), 1);
}
