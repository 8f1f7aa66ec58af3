//! The dedicated alert log: one plain-text entry per detection, with a
//! local 12-hour timestamp, followed by a blank line.

use crate::util::push_char;
use vstd::prelude::*;
use vstd::string::StringExecFns;

verus! {

/// The decimal digit character for `d`.
pub open spec fn digit_char(d: int) -> char
    recommends
        0 <= d <= 9,
{
    ((48 + d) as u8) as char
}

/// A number under 100 as two decimal digits.
pub open spec fn spec_pad2(n: int) -> Seq<char> {
    seq![digit_char(n / 10), digit_char(n % 10)]
}

/// A number under 10000 as four decimal digits.
pub open spec fn spec_pad4(n: int) -> Seq<char> {
    seq![
        digit_char(n / 1000),
        digit_char((n / 100) % 10),
        digit_char((n / 10) % 10),
        digit_char(n % 10),
    ]
}

/// The hour shown on a 12-hour clock: midnight and noon read 12.
pub open spec fn spec_hour12(h: int) -> int {
    if h % 12 == 0 {
        12
    } else {
        h % 12
    }
}

/// A local timestamp in the form `YYYY-MM-DD HH:MM:SS AM` (or `PM`).
pub open spec fn spec_timestamp(y: int, mo: int, d: int, h: int, mi: int, s: int) -> Seq<char> {
    spec_pad4(y) + "-"@ + spec_pad2(mo) + "-"@ + spec_pad2(d) + " "@ + spec_pad2(spec_hour12(h))
        + ":"@ + spec_pad2(mi) + ":"@ + spec_pad2(s) + (if h < 12 {
        " AM"@
    } else {
        " PM"@
    })
}

/// Renders a local calendar time in the alert log's 12-hour format.
#[verifier::rlimit(60)]
pub fn format_local_timestamp(year: u16, month: u8, day: u8, hour: u8, minute: u8, second: u8) -> (r:
    String)
    requires
        year <= 9999,
        1 <= month <= 12,
        1 <= day <= 31,
        hour <= 23,
        minute <= 59,
        second <= 59,
    ensures
        r@ == spec_timestamp(year as int, month as int, day as int, hour as int, minute as int,
            second as int,
        ),
{
    let mut out = String::new();
    push_char(&mut out, digit(year / 1000));
    push_char(&mut out, digit((year / 100) % 10));
    push_char(&mut out, digit((year / 10) % 10));
    push_char(&mut out, digit(year % 10));
    out.append("-");
    push_char(&mut out, digit((month / 10) as u16));
    push_char(&mut out, digit((month % 10) as u16));
    out.append("-");
    push_char(&mut out, digit((day / 10) as u16));
    push_char(&mut out, digit((day % 10) as u16));
    out.append(" ");
    let hour12: u8 = if hour % 12 == 0 {
        12
    } else {
        hour % 12
    };
    push_char(&mut out, digit((hour12 / 10) as u16));
    push_char(&mut out, digit((hour12 % 10) as u16));
    out.append(":");
    push_char(&mut out, digit((minute / 10) as u16));
    push_char(&mut out, digit((minute % 10) as u16));
    out.append(":");
    push_char(&mut out, digit((second / 10) as u16));
    push_char(&mut out, digit((second % 10) as u16));
    if hour < 12 {
        out.append(" AM");
    } else {
        out.append(" PM");
    }
    proof {
        assert(out@ =~= spec_timestamp(year as int, month as int, day as int, hour as int,
            minute as int, second as int));
    }
    out
}

/// The decimal digit character for a value under ten.
fn digit(d: u16) -> (c: char)
    requires
        d <= 9,
    ensures
        c == digit_char(d as int),
{
    ((48 + d) as u8) as char
}

/// One alert log entry: the raw header, the decoded text, the local
/// reception time, and a trailing blank line.
pub fn build_alert_log_line(raw_header: &str, eas_text: &str, timestamp: &str) -> (r: String)
    ensures
        r@ == raw_header@ + ": "@ + eas_text@ + " (Received @ "@ + timestamp@ + ")\n\n"@,
{
    let mut out = raw_header.to_owned();
    out.append(": ");
    out.append(eas_text);
    out.append(" (Received @ ");
    out.append(timestamp);
    out.append(")\n\n");
    out
}

} // verus!
