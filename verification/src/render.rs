//! Human-readable sizes and durations for listings.

use vstd::prelude::*;
use vstd::string::StringExecFns;

use crate::text::{
    decimal, decimal_pad2, push_decimal, push_decimal_pad2, push_decimal_wide, round_scaled,
    rounded,
};

verus! {

/// `num / den` with one decimal, rounded half to even.
pub open spec fn fixed1(num: nat, den: nat) -> Seq<char> {
    let tenths = rounded(num, den, 10);
    decimal(tenths / 10) + "."@ + decimal(tenths % 10)
}

/// `num / den` with two decimals, rounded half to even.
pub open spec fn fixed2(num: nat, den: nat) -> Seq<char> {
    let hundredths = rounded(num, den, 100);
    decimal(hundredths / 100) + "."@ + decimal_pad2(hundredths % 100)
}

/// A size in the largest unit that it fills, units being powers of 1024:
/// whole bytes below one KB, else one decimal.
pub open spec fn bytes_text(bytes: u64) -> Seq<char> {
    if bytes < 1024 {
        decimal(bytes as nat) + " B"@
    } else if bytes < 1048576 {
        fixed1(bytes as nat, 1024) + " KB"@
    } else if bytes < 1073741824 {
        fixed1(bytes as nat, 1048576) + " MB"@
    } else {
        fixed1(bytes as nat, 1073741824) + " GB"@
    }
}

/// A size as the monitor shows it: nothing as "0 B", less than one MB in
/// whole KB, less than one GB in MB with one decimal, else GB with two.
pub open spec fn compact_bytes_text(bytes: u64) -> Seq<char> {
    if bytes == 0 {
        "0 B"@
    } else if bytes < 1048576 {
        decimal(rounded(bytes as nat, 1024, 1)) + " KB"@
    } else if bytes < 1073741824 {
        fixed1(bytes as nat, 1048576) + " MB"@
    } else {
        fixed2(bytes as nat, 1073741824) + " GB"@
    }
}

/// An uptime in its two largest units: `42s`, `3m 7s`, `5h 12m`, `2d 3h`.
pub open spec fn uptime_text(ms: u64) -> Seq<char> {
    let secs = (ms / 1000) as nat;
    if secs < 60 {
        decimal(secs) + "s"@
    } else if secs < 3600 {
        decimal(secs / 60) + "m "@ + decimal(secs % 60) + "s"@
    } else if secs < 86400 {
        decimal(secs / 3600) + "h "@ + decimal(secs % 3600 / 60) + "m"@
    } else {
        decimal(secs / 86400) + "d "@ + decimal(secs % 86400 / 3600) + "h"@
    }
}

/// Appends `num / den` with one decimal.
fn push_fixed1(out: &mut String, num: u64, den: u64)
    requires
        den > 0,
    ensures
        final(out)@ == old(out)@ + fixed1(num as nat, den as nat),
{
    let tenths: u128 = round_scaled(num, den, 10);
    push_decimal_wide(out, tenths / 10);
    out.append(".");
    push_decimal_wide(out, tenths % 10);
    assert(out@ =~= old(out)@ + fixed1(num as nat, den as nat));
}

/// Appends `num / den` with two decimals.
fn push_fixed2(out: &mut String, num: u64, den: u64)
    requires
        den > 0,
    ensures
        final(out)@ == old(out)@ + fixed2(num as nat, den as nat),
{
    let hundredths: u128 = round_scaled(num, den, 100);
    push_decimal_wide(out, hundredths / 100);
    out.append(".");
    push_decimal_pad2(out, (hundredths % 100) as u64);
    assert(out@ =~= old(out)@ + fixed2(num as nat, den as nat));
}

/// Formats a size for the process list.
pub fn format_bytes(bytes: u64) -> (s: String)
    ensures
        s@ == bytes_text(bytes),
{
    let mut out = String::new();
    if bytes < 1024 {
        push_decimal(&mut out, bytes);
        out.append(" B");
    } else if bytes < 1048576 {
        push_fixed1(&mut out, bytes, 1024);
        out.append(" KB");
    } else if bytes < 1073741824 {
        push_fixed1(&mut out, bytes, 1048576);
        out.append(" MB");
    } else {
        push_fixed1(&mut out, bytes, 1073741824);
        out.append(" GB");
    }
    assert(out@ =~= bytes_text(bytes));
    out
}

/// Formats a size for the monitor.
pub fn format_bytes_compact(bytes: u64) -> (s: String)
    ensures
        s@ == compact_bytes_text(bytes),
{
    if bytes == 0 {
        return String::from_str("0 B");
    }
    let mut out = String::new();
    if bytes < 1048576 {
        let kb: u128 = round_scaled(bytes, 1024, 1);
        push_decimal_wide(&mut out, kb);
        out.append(" KB");
    } else if bytes < 1073741824 {
        push_fixed1(&mut out, bytes, 1048576);
        out.append(" MB");
    } else {
        push_fixed2(&mut out, bytes, 1073741824);
        out.append(" GB");
    }
    assert(out@ =~= compact_bytes_text(bytes));
    out
}

/// Formats an uptime given in milliseconds.
pub fn format_uptime(ms: u64) -> (s: String)
    ensures
        s@ == uptime_text(ms),
{
    let secs: u64 = ms / 1000;
    let mut out = String::new();
    if secs < 60 {
        push_decimal(&mut out, secs);
        out.append("s");
    } else if secs < 3600 {
        push_decimal(&mut out, secs / 60);
        out.append("m ");
        push_decimal(&mut out, secs % 60);
        out.append("s");
    } else if secs < 86400 {
        push_decimal(&mut out, secs / 3600);
        out.append("h ");
        push_decimal(&mut out, (secs % 3600) / 60);
        out.append("m");
    } else {
        push_decimal(&mut out, secs / 86400);
        out.append("d ");
        push_decimal(&mut out, (secs % 86400) / 3600);
        out.append("h");
    }
    assert(out@ =~= uptime_text(ms));
    out
}

} // verus!
