//! The debug log of the routing CLI: where it is written and what one entry looks like,
//! `yyyy-MM-dd HH:mm:ss.fff <msg>`.
use vstd::prelude::*;
use vstd::string::*;
use crate::routing::is_ascii_digit;

verus! {

/// The debug log file.
pub const LOG_FILE: &'static str = "C:\\ProgramData\\ssh\\ssh-router-debug.log";

/// The chrono format of a log entry's timestamp: `yyyy-MM-dd HH:mm:ss.fff`.
pub const LOG_TIME_FORMAT: &'static str = "%Y-%m-%d %H:%M:%S%.3f";

/// The last second of the year 9999, in seconds since 1970-01-01 00:00:00.
pub const MAX_LOG_SECS: i64 = 253_402_300_799;

/// `t` has the form `DDDD-DD-DD DD:DD:DD.DDD`, with a decimal digit at every `D`.
pub open spec fn is_log_timestamp(t: Seq<char>) -> bool {
    &&& t.len() == 23
    &&& forall|i: int|
        0 <= i < 23 ==> if i == 4 || i == 7 {
            t[i] == '-'
        } else if i == 10 {
            t[i] == ' '
        } else if i == 13 || i == 16 {
            t[i] == ':'
        } else if i == 19 {
            t[i] == '.'
        } else {
            is_ascii_digit(#[trigger] t[i])
        }
}

/// One log line: the timestamp, a space, the message and a line break.
pub open spec fn log_line(timestamp: Seq<char>, msg: Seq<char>) -> Seq<char> {
    timestamp + " "@ + msg + "\n"@
}

/// The text chrono writes for the date-time `secs` seconds and `nanos` nanoseconds after
/// 1970-01-01 00:00:00, formatted with `format`; `None` when chrono cannot represent it.
pub uninterp spec fn chrono_timestamp_text(secs: i64, nanos: u32, format: Seq<char>) -> Option<
    Seq<char>,
>;

/// The views of an optional string.
pub open spec fn opt_string_view(s: Option<String>) -> Option<Seq<char>> {
    match s {
        Some(v) => Some(v@),
        None => None,
    }
}

/// `chrono::DateTime::from_timestamp(secs, nanos)` formatted by chrono with `format`
/// (which must be the log's format: chrono's formatting fails, and `to_string` panics,
/// on an invalid one). For a time in the years 1970 to 9999 (and `nanos` below one
/// second), chrono's `%Y-%m-%d %H:%M:%S%.3f` writes four-digit years and two-digit
/// fields, zero-padded, then a dot and three digits of milliseconds.
#[verifier::external_body]
fn format_timestamp(secs: i64, nanos: u32, format: &str) -> (t: Option<String>)
    requires
        format@ == LOG_TIME_FORMAT@,
    ensures
        opt_string_view(t) == chrono_timestamp_text(secs, nanos, format@),
        0 <= secs <= MAX_LOG_SECS && nanos < 1_000_000_000 ==> t is Some,
        0 <= secs <= MAX_LOG_SECS && nanos < 1_000_000_000 ==> is_log_timestamp(t.unwrap()@),
{
    match chrono::DateTime::from_timestamp(secs, nanos) {
        Some(time) => Some(time.format(format).to_string()),
        None => None,
    }
}

/// One log line for `msg` stamped with `timestamp`.
pub fn format_log_entry(timestamp: &str, msg: &str) -> (e: String)
    ensures
        e@ == log_line(timestamp@, msg@),
{
    let mut e = String::from_str(timestamp);
    e.append(" ");
    e.append(msg);
    e.append("\n");
    e
}

/// One log line for `msg`, stamped with the local wall-clock time given as `secs`
/// seconds and `nanos` nanoseconds after 1970-01-01 00:00:00 of the local calendar;
/// `None` when chrono cannot represent that time.
pub fn log_entry(secs: i64, nanos: u32, msg: &str) -> (e: Option<String>)
    ensures
        match e {
            Some(e) => chrono_timestamp_text(secs, nanos, LOG_TIME_FORMAT@) matches Some(t) && e@
                == log_line(t, msg@),
            None => chrono_timestamp_text(secs, nanos, LOG_TIME_FORMAT@) is None,
        },
        0 <= secs <= MAX_LOG_SECS && nanos < 1_000_000_000 ==> (e matches Some(e)
            && is_log_timestamp(e@.subrange(0, 23)) && e@.skip(23) == " "@ + msg@ + "\n"@),
{
    match format_timestamp(secs, nanos, LOG_TIME_FORMAT) {
        Some(t) => {
            let e = format_log_entry(t.as_str(), msg);
            proof {
                if 0 <= secs <= MAX_LOG_SECS && nanos < 1_000_000_000 {
                    assert(e@.subrange(0, 23) =~= t@);
                    assert(e@.skip(23) =~= " "@ + msg@ + "\n"@);
                }
            }
            Some(e)
        },
        None => None,
    }
}

} // verus!
