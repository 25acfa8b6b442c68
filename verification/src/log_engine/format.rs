//! Rendering of log entries as text lines.

use vstd::prelude::*;
use vstd::string::StringExecFns;

use crate::log_engine::ProcessedEntry;
use crate::outside::{json_quote, json_string};
use crate::text::{decimal, decimal_pad2, push_decimal, push_decimal_pad2};

verus! {

/// The tag of a stream: "err" for stream 1, "out" for any other.
pub open spec fn stream_tag(stream: u8) -> Seq<char> {
    if stream == 1 {
        "err"@
    } else {
        "out"@
    }
}

/// The source name of a stream: "stderr" for stream 1, "stdout" otherwise.
pub open spec fn stream_source(stream: u8) -> Seq<char> {
    if stream == 1 {
        "stderr"@
    } else {
        "stdout"@
    }
}

/// The time of day of a timestamp in milliseconds, as `HH:MM:SS`.
pub open spec fn clock_text(ms: u64) -> Seq<char> {
    let secs = (ms / 1000) % 86400;
    decimal_pad2((secs / 3600) as nat) + ":"@ + decimal_pad2((secs % 3600 / 60) as nat) + ":"@
        + decimal_pad2((secs % 60) as nat)
}

/// An entry as `[out|10:05:03] message`.
pub open spec fn plain_text(stream: u8, timestamp_ms: u64, message: Seq<char>) -> Seq<char> {
    "["@ + stream_tag(stream) + "|"@ + clock_text(timestamp_ms) + "] "@ + message
}

/// An entry as `[INFO|out|10:05:03] message`.
pub open spec fn plain_text_with_level(
    level: Seq<char>,
    stream: u8,
    timestamp_ms: u64,
    message: Seq<char>,
) -> Seq<char> {
    "["@ + level + "|"@ + stream_tag(stream) + "|"@ + clock_text(timestamp_ms) + "] "@ + message
}

/// An entry as one line of JSON, members in alphabetical order:
/// `{"lvl":"info","msg":"Server started","pid":0,"src":"stdout","ts":1707734400000}`.
pub open spec fn structured_text(
    level: Seq<char>,
    message: Seq<char>,
    pid: u32,
    stream: u8,
    timestamp_ms: u64,
) -> Seq<char> {
    "{\"lvl\":\""@ + level + "\",\"msg\":"@ + json_string(message) + ",\"pid\":"@ + decimal(
        pid as nat,
    ) + ",\"src\":\""@ + stream_source(stream) + "\",\"ts\":"@ + decimal(timestamp_ms as nat)
        + "}"@
}

/// The tag of a stream.
fn tag_of(stream: u8) -> (s: &'static str)
    ensures
        s@ == stream_tag(stream),
{
    if stream == 1 {
        "err"
    } else {
        "out"
    }
}

/// Appends the time of day of `ms`.
fn push_clock(out: &mut String, ms: u64)
    ensures
        final(out)@ == old(out)@ + clock_text(ms),
{
    let secs: u64 = (ms / 1000) % 86400;
    push_decimal_pad2(out, secs / 3600);
    out.append(":");
    push_decimal_pad2(out, (secs % 3600) / 60);
    out.append(":");
    push_decimal_pad2(out, secs % 60);
    assert(out@ =~= old(out)@ + clock_text(ms));
}

/// Formats an entry as one line of JSON.
pub fn format_structured(entry: &ProcessedEntry, pid: u32) -> (s: String)
    ensures
        s@ == structured_text(
            entry.level.name(),
            entry.message@,
            pid,
            entry.stream,
            entry.timestamp_ms,
        ),
{
    let src: &str = if entry.stream == 1 {
        "stderr"
    } else {
        "stdout"
    };
    let mut out = String::from_str("{\"lvl\":\"");
    out.append(entry.level.as_str());
    out.append("\",\"msg\":");
    let quoted = json_quote(entry.message.as_str());
    out.append(quoted.as_str());
    out.append(",\"pid\":");
    push_decimal(&mut out, pid as u64);
    out.append(",\"src\":\"");
    out.append(src);
    out.append("\",\"ts\":");
    push_decimal(&mut out, entry.timestamp_ms);
    out.append("}");
    assert(out@ =~= structured_text(
        entry.level.name(),
        entry.message@,
        pid,
        entry.stream,
        entry.timestamp_ms,
    ));
    out
}

/// Formats an entry as plain text: `[out|10:05:03] Server started`.
pub fn format_plain(entry: &ProcessedEntry) -> (s: String)
    ensures
        s@ == plain_text(entry.stream, entry.timestamp_ms, entry.message@),
{
    let mut out = String::from_str("[");
    out.append(tag_of(entry.stream));
    out.append("|");
    push_clock(&mut out, entry.timestamp_ms);
    out.append("] ");
    out.append(entry.message.as_str());
    assert(out@ =~= plain_text(entry.stream, entry.timestamp_ms, entry.message@));
    out
}

/// Formats an entry as plain text with its level:
/// `[INFO|out|10:05:03] Server started`.
pub fn format_plain_with_level(entry: &ProcessedEntry) -> (s: String)
    ensures
        s@ == plain_text_with_level(
            entry.level.upper_name(),
            entry.stream,
            entry.timestamp_ms,
            entry.message@,
        ),
{
    let mut out = String::from_str("[");
    out.append(entry.level.as_upper_str());
    out.append("|");
    out.append(tag_of(entry.stream));
    out.append("|");
    push_clock(&mut out, entry.timestamp_ms);
    out.append("] ");
    out.append(entry.message.as_str());
    assert(out@ =~= plain_text_with_level(
        entry.level.upper_name(),
        entry.stream,
        entry.timestamp_ms,
        entry.message@,
    ));
    out
}

/// The time of day of a timestamp, as `HH:MM:SS`.
pub fn format_timestamp(ms: u64) -> (s: String)
    ensures
        s@ == clock_text(ms),
{
    let mut out = String::new();
    push_clock(&mut out, ms);
    assert(out@ =~= clock_text(ms));
    out
}

/// The time of day of a timestamp, as `HH:MM:SS`.
pub fn format_timestamp_short(ms: u64) -> (s: String)
    ensures
        s@ == clock_text(ms),
{
    format_timestamp(ms)
}

} // verus!
