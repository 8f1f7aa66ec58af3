use eas_listener::webhook::{
    build_apprise_title, build_archive_url, build_bearer_token, build_event_title,
    build_html_body, build_markdown_body, build_plain_body, extract_event_code, html_escape,
    monitor_number, select_embed_color, should_relay_dasdec, trim_end_ws,
};
use eas_listener::relay::{FilterAction, FilterRule};

#[test]
fn html_escape_replaces_the_five_metacharacters() {
    assert_eq!(html_escape("a&b<c>d\"e'f"), "a&amp;b&lt;c&gt;d&quot;e&#39;f");
    assert_eq!(html_escape("plain"), "plain");
    assert_eq!(html_escape(""), "");
}

#[test]
fn trailing_whitespace_is_stripped() {
    assert_eq!(trim_end_ws("abc \t\r\n"), "abc");
    assert_eq!(trim_end_ws("  abc"), "  abc");
    assert_eq!(trim_end_ws(" \n "), "");
}

#[test]
fn titles_are_title_cased() {
    assert_eq!(build_event_title("tornado warning"), "Tornado Warning");
    assert_eq!(
        build_apprise_title("tornado warning"),
        "Tornado Warning has just been issued/received"
    );
}

#[test]
fn markdown_body_is_exact() {
    let body = build_markdown_body(
        "KXYZ",
        "Tornado Warning",
        "National Weather Service",
        "2024-01-02T03:04:05-08:00",
        "The text.\n",
        "ZCZC-WXR-TOR-006037+0030-0011200-TEST- ",
    );
    let expected = "**KXYZ - Software ENDEC Logs**\n\n\
**Tornado Warning** has just been received from: National Weather Service\n\n\
**Received:** 2024-01-02T03:04:05-08:00\n\n\
**EAS Text Data:**\n```\nThe text.\n```\n\n\
**EAS Protocol Data:**\n```\nZCZC-WXR-TOR-006037+0030-0011200-TEST-\n```\n\n\
Powered by [Wags' Software ENDEC](https://github.com/wagwan-piffting-blud/ASMARA_Rust)";
    assert_eq!(body, expected);
}

#[test]
fn html_body_is_exact_and_escaped() {
    let body = build_html_body(
        "K&Z",
        "Tornado Warning",
        "NWS",
        "2024-01-02",
        "a<b\n",
        "ZCZC-",
    );
    let expected = "<p><strong>K&amp;Z - Software ENDEC Logs</strong></p>\
<p><strong>Tornado Warning</strong> has just been received from: NWS</p>\
<p><strong>Received:</strong> 2024-01-02</p>\
<p><strong>EAS Text Data:</strong></p><pre>a&lt;b</pre>\
<p><strong>EAS Protocol Data:</strong></p><pre>ZCZC-</pre>\
<p>Powered by <a href=\"https://github.com/wagwan-piffting-blud/ASMARA_Rust\">Wags' Software ENDEC</a></p>";
    assert_eq!(body, expected);
}

#[test]
fn plain_body_is_exact() {
    let body = build_plain_body("KXYZ", "Test", "NWS", "now", "text ", "ZCZC- ");
    let expected = "KXYZ - Software ENDEC Logs\n\n\
Test has just been received from: NWS\nReceived: now\n\n\
EAS Text Data:\ntext\n\n\
EAS Protocol Data:\nZCZC-\n\n\
Powered by Wags' Software ENDEC (https://github.com/wagwan-piffting-blud/ASMARA_Rust)";
    assert_eq!(body, expected);
}

#[test]
fn bearer_token_is_base64_of_user_colon_password() {
    assert_eq!(build_bearer_token("a", "b"), "Bearer YTpi");
    assert_eq!(build_bearer_token("admin", "hunter2"), "Bearer YWRtaW46aHVudGVyMg==");
}

#[test]
fn monitor_numbers_count_from_one() {
    let urls = vec![
        String::from("http://one/stream"),
        String::from("http://two/stream"),
    ];
    assert_eq!(monitor_number(&urls, "http://one/stream"), 1);
    assert_eq!(monitor_number(&urls, "http://two/stream"), 2);
    assert_eq!(monitor_number(&urls, "http://other/stream"), 999);
}

#[test]
fn event_code_comes_from_the_header() {
    assert_eq!(extract_event_code("ZCZC-WXR-TOR-006037+0030-0011200-TEST-"), "TOR");
    assert_eq!(extract_event_code("ZCZC-WXR-T0R-006037+0030-0011200-TEST-"), "TR");
}

#[test]
fn embed_colors_follow_the_title() {
    assert_eq!(select_embed_color("Required Weekly Test"), ("105733", 0x105733));
    assert_eq!(select_embed_color("Severe Thunderstorm WATCH"), ("FFFF00", 0xFFFF00));
    assert_eq!(select_embed_color("Tornado Warning"), ("FF0000", 0xFF0000));
    assert_eq!(select_embed_color("Administrative Message"), ("808080", 0x808080));
}

#[test]
fn dashboard_relay_gate() {
    let rules = vec![FilterRule {
        name: String::from("tests"),
        pattern: String::from("RWT"),
        action: FilterAction::Ignore,
    }];
    assert!(should_relay_dasdec(true, "http://dasdec/", &rules, "TOR"));
    assert!(!should_relay_dasdec(true, "http://dasdec/", &rules, "RWT"));
    assert!(!should_relay_dasdec(true, "   ", &rules, "TOR"));
    assert!(!should_relay_dasdec(false, "http://dasdec/", &rules, "TOR"));
}

#[test]
fn archive_urls() {
    assert_eq!(
        build_archive_url(false, "", "127.0.0.1", "8080", "latest_id=true"),
        "http://127.0.0.1:8080/archive.php?latest_id=true"
    );
    assert_eq!(
        build_archive_url(true, "eas.example.org", "127.0.0.1", "8080", "recording_id=7"),
        "https://eas.example.org:443/archive.php?recording_id=7"
    );
}
