//! The wall clock, read as nanoseconds since the Unix epoch.

use vstd::prelude::*;
use std::time::Duration;

verus! {

/// `SystemTime::elapsed` of `UNIX_EPOCH`: the time from the epoch to the
/// clock's reading now, none when the clock reads earlier. Nothing is
/// claimed of the value: the clock may read anything, and two readings may
/// differ.
#[verifier::external_body]
fn time_since_epoch() -> (r: Option<Duration>) {
    std::time::UNIX_EPOCH.elapsed().ok()
}

/// `Duration::as_nanos`: the whole nanoseconds of `d`. Not stated: a
/// duration is opaque here.
#[verifier::external_body]
fn whole_nanos(d: &Duration) -> (r: u128) {
    d.as_nanos()
}

/// The clock's reading now, in nanoseconds since the Unix epoch: 0 for a
/// clock set before the epoch, the largest `u64` past it.
pub(crate) fn now_nanos() -> (t: u64) {
    match time_since_epoch() {
        Some(d) => {
            let n = whole_nanos(&d);
            if n > 18_446_744_073_709_551_615u128 {
                18_446_744_073_709_551_615u64
            } else {
                n as u64
            }
        },
        None => 0,
    }
}

/// Nanoseconds in one second.
pub const NANOS_PER_SEC: u64 = 1_000_000_000;

/// Time elapsed from `then` to `now`, or zero when `then` is later, as
/// `SystemTime::duration_since(..).unwrap_or_default()` gives it.
pub open spec fn elapsed(now: u64, then: u64) -> int {
    if now >= then {
        now - then
    } else {
        0
    }
}

/// Computes `elapsed`.
pub fn elapsed_nanos(now: u64, then: u64) -> (r: u64)
    ensures
        r == elapsed(now, then),
{
    if now >= then {
        now - then
    } else {
        0
    }
}

} // verus!
