//! The notification texts built for a detected alert: the title, the
//! markdown, HTML, and plain bodies, the embed colour, and the small
//! pieces the dashboard relay needs.
//!
//! Delivering the texts (webhooks, the notification CLI, the dashboard
//! request) happens outside the library.

use crate::relay::spec_relay_action;
use crate::relay::FilterAction;
use crate::relay::FilterRule;
use crate::util::push_char;
use crate::util::str_eq;
use vstd::prelude::*;
use vstd::string::is_ascii;
use vstd::string::StringExecFns;

verus! {

/// The whitespace characters stripped from the end of alert texts.
pub open spec fn is_ws(c: char) -> bool {
    c == ' ' || c == '\t' || c == '\n' || c == '\r'
}

/// The sequence with its trailing whitespace removed.
pub open spec fn spec_trim_end(s: Seq<char>) -> Seq<char>
    decreases s.len(),
{
    if s.len() > 0 && is_ws(s.last()) {
        spec_trim_end(s.drop_last())
    } else {
        s
    }
}

/// Strips trailing whitespace.
pub fn trim_end_ws(s: &str) -> (r: &str)
    ensures
        r@ == spec_trim_end(s@),
{
    let len = s.unicode_len();
    proof {
        assert(s@.take(len as int) =~= s@);
    }
    let mut e = len;
    while e > 0
        invariant_except_break
            e <= len,
            len == s@.len(),
            spec_trim_end(s@.take(e as int)) == spec_trim_end(s@),
        ensures
            e <= len,
            len == s@.len(),
            spec_trim_end(s@.take(e as int)) == spec_trim_end(s@),
            e > 0 ==> !is_ws(s@[e - 1]),
        decreases e,
    {
        let c = s.get_char(e - 1);
        if !(c == ' ' || c == '\t' || c == '\n' || c == '\r') {
            break;
        }
        proof {
            assert(s@.take(e as int).last() == s@[e - 1]);
            assert(s@.take(e as int).drop_last() =~= s@.take(e - 1));
        }
        e = e - 1;
    }
    proof {
        if e > 0 {
            assert(s@.take(e as int).last() == s@[e - 1]);
        }
        assert(spec_trim_end(s@.take(e as int)) == s@.take(e as int));
    }
    s.substring_char(0, e)
}

/// The replacement emitted for one character of HTML text.
pub open spec fn escape_char(c: char) -> Seq<char> {
    if c == '&' {
        "&amp;"@
    } else if c == '<' {
        "&lt;"@
    } else if c == '>' {
        "&gt;"@
    } else if c == '"' {
        "&quot;"@
    } else if c == '\'' {
        "&#39;"@
    } else {
        seq![c]
    }
}

/// The HTML-escaped form of a character sequence.
pub open spec fn spec_html_escape(s: Seq<char>) -> Seq<char>
    decreases s.len(),
{
    if s.len() == 0 {
        Seq::empty()
    } else {
        spec_html_escape(s.drop_last()) + escape_char(s.last())
    }
}

/// Escapes the five HTML metacharacters.
pub fn html_escape(input: &str) -> (r: String)
    ensures
        r@ == spec_html_escape(input@),
{
    let len = input.unicode_len();
    let mut out = String::new();
    let mut i: usize = 0;
    while i < len
        invariant
            i <= len,
            len == input@.len(),
            out@ == spec_html_escape(input@.take(i as int)),
        decreases len - i,
    {
        let c = input.get_char(i);
        if c == '&' {
            out.append("&amp;");
        } else if c == '<' {
            out.append("&lt;");
        } else if c == '>' {
            out.append("&gt;");
        } else if c == '"' {
            out.append("&quot;");
        } else if c == '\'' {
            out.append("&#39;");
        } else {
            push_char(&mut out, c);
        }
        proof {
            assert(input@.take(i + 1).drop_last() =~= input@.take(i as int));
            assert(input@.take(i + 1).last() == input@[i as int]);
            assert(out@ =~= spec_html_escape(input@.take(i + 1)));
        }
        i = i + 1;
    }
    proof {
        assert(input@.take(len as int) =~= input@);
    }
    out
}

/// What [`title_case`] returns for a given text; the casing rules
/// depend on the characters alone.
pub uninterp spec fn title_case_of(s: Seq<char>) -> Seq<char>;

/// Relies on inflector's to_title_case: a pure transformation of the
/// input text into Title Case.
#[verifier::external_body]
fn title_case(s: &str) -> (r: String)
    ensures
        r@ == title_case_of(s@),
{
    inflector::cases::titlecase::to_title_case(s)
}

/// The notification title announcing an event, in Title Case.
pub fn build_apprise_title(event_text: &str) -> (r: String)
    ensures
        r@ == title_case_of(event_text@) + " has just been issued/received"@,
{
    let mut out = title_case(event_text);
    out.append(" has just been issued/received");
    out
}

/// The Title Case form of an event's text, as shown in every body.
pub fn build_event_title(event_text: &str) -> (r: String)
    ensures
        r@ == title_case_of(event_text@),
{
    title_case(event_text)
}

/// The markdown notification body.
#[verifier::rlimit(60)]
pub fn build_markdown_body(
    station: &str,
    title: &str,
    originator: &str,
    received_timestamp: &str,
    eas_text: &str,
    raw_header: &str,
) -> (r: String)
    ensures
        r@ == "**"@ + station@ + " - Software ENDEC Logs**\n\n**"@ + title@
            + "** has just been received from: "@ + originator@ + "\n\n**Received:** "@
            + received_timestamp@ + "\n\n**EAS Text Data:**\n```\n"@ + spec_trim_end(eas_text@)
            + "\n```\n\n**EAS Protocol Data:**\n```\n"@ + spec_trim_end(raw_header@)
            + "\n```\n\nPowered by [Wags' Software ENDEC](https://github.com/wagwan-piffting-blud/ASMARA_Rust)"@,
{
    let mut out = "**".to_owned();
    out.append(station);
    out.append(" - Software ENDEC Logs**\n\n**");
    out.append(title);
    out.append("** has just been received from: ");
    out.append(originator);
    out.append("\n\n**Received:** ");
    out.append(received_timestamp);
    out.append("\n\n**EAS Text Data:**\n```\n");
    out.append(trim_end_ws(eas_text));
    out.append("\n```\n\n**EAS Protocol Data:**\n```\n");
    out.append(trim_end_ws(raw_header));
    out.append(
        "\n```\n\nPowered by [Wags' Software ENDEC](https://github.com/wagwan-piffting-blud/ASMARA_Rust)",
    );
    out
}

/// The HTML notification body; every interpolated field is escaped.
#[verifier::rlimit(60)]
pub fn build_html_body(
    station: &str,
    title: &str,
    originator: &str,
    received_timestamp: &str,
    eas_text: &str,
    raw_header: &str,
) -> (r: String)
    ensures
        r@ == "<p><strong>"@ + spec_html_escape(station@) + " - Software ENDEC Logs</strong></p>"@
            + "<p><strong>"@ + spec_html_escape(title@) + "</strong> has just been received from: "@
            + spec_html_escape(originator@) + "</p>"@ + "<p><strong>Received:</strong> "@
            + spec_html_escape(received_timestamp@) + "</p>"@
            + "<p><strong>EAS Text Data:</strong></p>"@ + "<pre>"@ + spec_html_escape(
            spec_trim_end(eas_text@),
        ) + "</pre>"@ + "<p><strong>EAS Protocol Data:</strong></p>"@ + "<pre>"@ + spec_html_escape(
            spec_trim_end(raw_header@),
        ) + "</pre>"@
            + "<p>Powered by <a href=\"https://github.com/wagwan-piffting-blud/ASMARA_Rust\">Wags' Software ENDEC</a></p>"@,
{
    let mut out = "<p><strong>".to_owned();
    let esc_station = html_escape(station);
    out.append(esc_station.as_str());
    out.append(" - Software ENDEC Logs</strong></p>");
    out.append("<p><strong>");
    let esc_title = html_escape(title);
    out.append(esc_title.as_str());
    out.append("</strong> has just been received from: ");
    let esc_orig = html_escape(originator);
    out.append(esc_orig.as_str());
    out.append("</p>");
    out.append("<p><strong>Received:</strong> ");
    let esc_ts = html_escape(received_timestamp);
    out.append(esc_ts.as_str());
    out.append("</p>");
    out.append("<p><strong>EAS Text Data:</strong></p>");
    out.append("<pre>");
    let esc_eas = html_escape(trim_end_ws(eas_text));
    out.append(esc_eas.as_str());
    out.append("</pre>");
    out.append("<p><strong>EAS Protocol Data:</strong></p>");
    out.append("<pre>");
    let esc_raw = html_escape(trim_end_ws(raw_header));
    out.append(esc_raw.as_str());
    out.append("</pre>");
    out.append(
        "<p>Powered by <a href=\"https://github.com/wagwan-piffting-blud/ASMARA_Rust\">Wags' Software ENDEC</a></p>",
    );
    out
}

/// The plain-text notification body.
#[verifier::rlimit(60)]
pub fn build_plain_body(
    station: &str,
    title: &str,
    originator: &str,
    received_timestamp: &str,
    eas_text: &str,
    raw_header: &str,
) -> (r: String)
    ensures
        r@ == station@ + " - Software ENDEC Logs\n\n"@ + title@
            + " has just been received from: "@ + originator@ + "\nReceived: "@
            + received_timestamp@ + "\n\nEAS Text Data:\n"@ + spec_trim_end(eas_text@)
            + "\n\nEAS Protocol Data:\n"@ + spec_trim_end(raw_header@)
            + "\n\nPowered by Wags' Software ENDEC (https://github.com/wagwan-piffting-blud/ASMARA_Rust)"@,
{
    let mut out = station.to_owned();
    out.append(" - Software ENDEC Logs\n\n");
    out.append(title);
    out.append(" has just been received from: ");
    out.append(originator);
    out.append("\nReceived: ");
    out.append(received_timestamp);
    out.append("\n\nEAS Text Data:\n");
    out.append(trim_end_ws(eas_text));
    out.append("\n\nEAS Protocol Data:\n");
    out.append(trim_end_ws(raw_header));
    out.append(
        "\n\nPowered by Wags' Software ENDEC (https://github.com/wagwan-piffting-blud/ASMARA_Rust)",
    );
    out
}

/// The bytes of an ASCII character sequence.
pub open spec fn ascii_bytes(s: Seq<char>) -> Seq<u8> {
    Seq::new(s.len(), |i: int| s[i] as u8)
}

/// What the dashboard's base64 encoder returns; the encoding depends on
/// the bytes alone.
pub uninterp spec fn base64_standard_of(bytes: Seq<u8>) -> Seq<char>;

/// Relies on base64's general_purpose::STANDARD engine: padded output,
/// four characters for every started group of three bytes.
#[verifier::external_body]
fn base64_standard(bytes: &Vec<u8>) -> (r: String)
    requires
        bytes@.len() <= usize::MAX / 2,
    ensures
        r@ == base64_standard_of(bytes@),
        r@.len() == 4 * ((bytes@.len() + 2) / 3),
{
    base64::Engine::encode(&base64::engine::general_purpose::STANDARD, bytes)
}

/// The authorization header for the dashboard: `Bearer` followed by the
/// base64 encoding of `username:password`.
pub fn build_bearer_token(username: &str, password: &str) -> (r: String)
    requires
        username.is_ascii(),
        password.is_ascii(),
        username@.len() + password@.len() + 1 <= usize::MAX / 2,
    ensures
        r@ == "Bearer "@ + base64_standard_of(ascii_bytes(username@ + ":"@ + password@)),
{
    let ghost joined = username@ + ":"@ + password@;
    let mut bytes: Vec<u8> = Vec::new();
    let ulen = username.unicode_len();
    let mut i: usize = 0;
    while i < ulen
        invariant
            i <= ulen,
            ulen == username@.len(),
            is_ascii(username),
            bytes@ == ascii_bytes(username@.take(i as int)),
        decreases ulen - i,
    {
        bytes.push(username.get_ascii(i));
        proof {
            assert(bytes@ =~= ascii_bytes(username@.take(i + 1)));
        }
        i = i + 1;
    }
    proof {
        assert(username@.take(ulen as int) =~= username@);
    }
    bytes.push(58);
    let plen = password.unicode_len();
    let mut j: usize = 0;
    while j < plen
        invariant
            j <= plen,
            plen == password@.len(),
            is_ascii(password),
            ulen == username@.len(),
            bytes@ == ascii_bytes(username@).push(58u8) + ascii_bytes(password@.take(j as int)),
        decreases plen - j,
    {
        bytes.push(password.get_ascii(j));
        proof {
            assert(ascii_bytes(password@.take(j + 1)) =~= ascii_bytes(
                password@.take(j as int),
            ).push(password@[j as int] as u8));
            assert(bytes@ =~= ascii_bytes(username@).push(58u8) + ascii_bytes(
                password@.take(j + 1),
            ));
        }
        j = j + 1;
    }
    proof {
        assert(password@.take(plen as int) =~= password@);
        reveal_strlit(":");
        assert(bytes@ =~= ascii_bytes(joined));
    }
    let encoded = base64_standard(&bytes);
    let mut out = "Bearer ".to_owned();
    out.append(encoded.as_str());
    out
}

/// ASCII letters, the only characters an event code may carry.
pub open spec fn is_ascii_alpha(c: char) -> bool {
    ('A' <= c <= 'Z') || ('a' <= c <= 'z')
}

/// The event code of a raw SAME header: the three characters behind
/// `ZCZC-ORG-`, keeping only ASCII letters.
pub fn extract_event_code(raw_header: &str) -> (r: String)
    requires
        raw_header@.len() >= 12,
    ensures
        r@ == raw_header@.subrange(9, 12).filter(|c: char| is_ascii_alpha(c)),
{
    let ghost sub = raw_header@.subrange(9, 12);
    let ghost pred = |c: char| is_ascii_alpha(c);
    let mut out = String::new();
    let mut k: usize = 9;
    while k < 12
        invariant
            9 <= k <= 12,
            raw_header@.len() >= 12,
            sub == raw_header@.subrange(9, 12),
            pred == (|c: char| is_ascii_alpha(c)),
            out@ == sub.take(k - 9).filter(pred),
        decreases 12 - k,
    {
        let c = raw_header.get_char(k);
        if ('A' <= c && c <= 'Z') || ('a' <= c && c <= 'z') {
            push_char(&mut out, c);
        }
        proof {
            reveal(Seq::filter);
            let t1 = sub.take(k - 9 + 1);
            assert(t1.drop_last() =~= sub.take(k - 9));
            assert(t1.last() == raw_header@[k as int]);
            assert(out@ =~= sub.take(k - 9 + 1).filter(pred));
        }
        k = k + 1;
    }
    proof {
        assert(sub.take(3) =~= sub);
    }
    out
}

/// The position a stream URL holds in the configured list, counted from
/// one; unknown URLs report monitor 999.
pub fn monitor_number(urls: &Vec<String>, stream_id: &str) -> (n: usize)
    ensures
        (exists|i: int| 0 <= i < urls@.len() && #[trigger] urls@[i]@ == stream_id@) ==> exists|
            i: int,
        |
            0 <= i < urls@.len() && #[trigger] urls@[i]@ == stream_id@ && n == i + 1 && forall|
                j: int,
            | 0 <= j < i ==> #[trigger] urls@[j]@ != stream_id@,
        !(exists|i: int| 0 <= i < urls@.len() && #[trigger] urls@[i]@ == stream_id@) ==> n == 999,
{
    let len = urls.len();
    let mut i: usize = 0;
    while i < len
        invariant
            len == urls@.len(),
            i <= len,
            forall|j: int| 0 <= j < i ==> #[trigger] urls@[j]@ != stream_id@,
        decreases len - i,
    {
        if str_eq(urls[i].as_str(), stream_id) {
            return i + 1;
        }
        i = i + 1;
    }
    999
}

/// An ASCII upper-case letter mapped to lower case; anything else is
/// unchanged.
pub open spec fn lower_char(c: char) -> char {
    if 'A' <= c <= 'Z' {
        ((c as u8) + 32) as char
    } else {
        c
    }
}

/// The sequence with its ASCII letters lowered.
pub open spec fn spec_ascii_lower(s: Seq<char>) -> Seq<char> {
    Seq::new(s.len(), |i: int| lower_char(s[i]))
}

/// Lowers the ASCII letters of a string.
pub fn ascii_lower(s: &str) -> (r: String)
    ensures
        r@ == spec_ascii_lower(s@),
{
    let len = s.unicode_len();
    let mut out = String::new();
    let mut i: usize = 0;
    while i < len
        invariant
            i <= len,
            len == s@.len(),
            out@ == spec_ascii_lower(s@.take(i as int)),
        decreases len - i,
    {
        let c = s.get_char(i);
        let lowered: char = if 'A' <= c && c <= 'Z' {
            ((c as u8) + 32) as char
        } else {
            c
        };
        push_char(&mut out, lowered);
        proof {
            assert(out@ =~= spec_ascii_lower(s@.take(i + 1)));
        }
        i = i + 1;
    }
    proof {
        assert(s@.take(len as int) =~= s@);
    }
    out
}

/// The embed colour for an alert title, chosen on the lower-cased
/// title: green for tests, yellow for advisories and watches, red for
/// warnings and emergencies, grey otherwise.  Returned as the hex code
/// and its numeric value.
pub fn select_embed_color(title: &str) -> (r: (&'static str, u32))
    ensures
        ({
            let lowered = spec_ascii_lower(title@);
            if crate::audio::spec_contains_sub(lowered, "test"@) {
                r.0@ == "105733"@ && r.1 == 0x105733
            } else if crate::audio::spec_contains_sub(lowered, "advisory"@)
                || crate::audio::spec_contains_sub(lowered, "watch"@) {
                r.0@ == "FFFF00"@ && r.1 == 0xFFFF00
            } else if crate::audio::spec_contains_sub(lowered, "warning"@)
                || crate::audio::spec_contains_sub(lowered, "emergency"@) {
                r.0@ == "FF0000"@ && r.1 == 0xFF0000
            } else {
                r.0@ == "808080"@ && r.1 == 0x808080
            }
        }),
{
    let lowered = ascii_lower(title);
    let l = lowered.as_str();
    if crate::audio::contains_sub(l, "test") {
        ("105733", 0x105733)
    } else if crate::audio::contains_sub(l, "advisory") || crate::audio::contains_sub(l, "watch") {
        ("FFFF00", 0xFFFF00)
    } else if crate::audio::contains_sub(l, "warning") || crate::audio::contains_sub(l, "emergency")
        {
        ("FF0000", 0xFF0000)
    } else {
        ("808080", 0x808080)
    }
}

/// Whether the dashboard relay runs for an alert: it is enabled, a
/// dashboard URL is configured (not merely whitespace), and the filter
/// rules select relay for the event code.
pub fn should_relay_dasdec(
    enabled: bool,
    dasdec_url: &str,
    rules: &Vec<FilterRule>,
    event_code: &str,
) -> (r: bool)
    ensures
        r == (enabled && (exists|i: int| 0 <= i < dasdec_url@.len() && !is_ws(#[trigger] dasdec_url@[i]))
            && spec_relay_action(rules@, event_code@) == FilterAction::Relay),
{
    if !enabled {
        return false;
    }
    let len = dasdec_url.unicode_len();
    let mut has_content = false;
    let mut i: usize = 0;
    while i < len
        invariant
            i <= len,
            len == dasdec_url@.len(),
            has_content == exists|j: int| 0 <= j < i && !is_ws(#[trigger] dasdec_url@[j]),
        decreases len - i,
    {
        let c = dasdec_url.get_char(i);
        if !(c == ' ' || c == '\t' || c == '\n' || c == '\r') {
            has_content = true;
            proof {
                assert(!is_ws(dasdec_url@[i as int]));
            }
        }
        i = i + 1;
    }
    if !has_content {
        return false;
    }
    let action = crate::relay::relay_action(rules, event_code);
    match action {
        FilterAction::Relay => true,
        _ => false,
    }
}

/// The dashboard archive URL: over the reverse proxy on port 443 when
/// one is configured, else directly against the bound host and port.
pub fn build_archive_url(
    use_reverse_proxy: bool,
    reverse_proxy_url: &str,
    bind_host: &str,
    web_port: &str,
    query: &str,
) -> (r: String)
    ensures
        use_reverse_proxy ==> r@ == "https://"@ + reverse_proxy_url@ + ":443/archive.php?"@
            + query@,
        !use_reverse_proxy ==> r@ == "http://"@ + bind_host@ + ":"@ + web_port@ + "/archive.php?"@
            + query@,
{
    let mut out: String;
    if use_reverse_proxy {
        out = "https://".to_owned();
        out.append(reverse_proxy_url);
        out.append(":443/archive.php?");
    } else {
        out = "http://".to_owned();
        out.append(bind_host);
        out.append(":");
        out.append(web_port);
        out.append("/archive.php?");
    }
    out.append(query);
    out
}

} // verus!
