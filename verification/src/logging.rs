//! Time stamps and pacing of log lines.

use crate::text::{push_zero_padded, zero_padded};
use vstd::prelude::*;
use vstd::string::StringExecFns;

verus! {

/// Seconds in a day.
pub const SECONDS_PER_DAY: u64 = 86_400;

/// The time of day as text, `HH:MM:SS.mmm`, of a moment given in seconds and
/// milliseconds since midnight of some day (UTC when counted from the Unix epoch).
pub open spec fn timestamp_text(secs: nat, millis: nat) -> Seq<char> {
    zero_padded((secs % 86_400) / 3_600, 2) + seq![':'] + zero_padded((secs % 3_600) / 60, 2)
        + seq![':'] + zero_padded(secs % 60, 2) + seq!['.'] + zero_padded(millis, 3)
}

/// The time stamp that starts a log line: hours, minutes and seconds with two digits
/// each and the milliseconds with three.
pub fn get_timestamp(secs: u64, millis: u32) -> (stamp: String)
    ensures
        stamp@ == timestamp_text(secs as nat, millis as nat),
{
    let hours = (secs % SECONDS_PER_DAY) / 3_600;
    let minutes = (secs % 3_600) / 60;
    let seconds = secs % 60;
    proof {
        reveal_strlit(":");
        reveal_strlit(".");
    }
    let mut stamp = String::new();
    push_zero_padded(&mut stamp, hours, 2);
    stamp.append(":");
    push_zero_padded(&mut stamp, minutes, 2);
    stamp.append(":");
    push_zero_padded(&mut stamp, seconds, 2);
    stamp.append(".");
    push_zero_padded(&mut stamp, millis as u64, 3);
    assert(stamp@ =~= timestamp_text(secs as nat, millis as nat));
    stamp
}

/// Leaves the terminal as it is: log lines scroll and earlier output stays readable.
pub fn clear_screen() {
}

/// More than `interval` seconds lie between `last` and `now`.
pub open spec fn is_due(last: u64, now: u64, interval: u64) -> bool {
    now - last > interval
}

/// Paces a repeated message. Returns whether more than `interval` seconds have passed
/// since `last`, and sets `last` to `now` when they have.
pub fn interval_elapsed(last: &mut u64, now: u64, interval: u64) -> (due: bool)
    ensures
        due == is_due(*old(last), now, interval),
        *final(last) == (if due {
            now
        } else {
            *old(last)
        }),
{
    if now > *last && now - *last > interval {
        *last = now;
        true
    } else {
        false
    }
}

/// Whether a progress message about telemetry is due: every five seconds at most, and
/// every second at most in verbose mode. `last_logged` is when the latest one went out.
pub fn should_log_telemetry_update(last_logged: &mut u64, now: u64, verbose: bool) -> (log: bool)
    ensures
        log == is_due(*old(last_logged), now, if verbose {
            1
        } else {
            5
        }),
        *final(last_logged) == (if log {
            now
        } else {
            *old(last_logged)
        }),
{
    if interval_elapsed(last_logged, now, 5) {
        return true;
    }
    verbose && interval_elapsed(last_logged, now, 1)
}

} // verus!
