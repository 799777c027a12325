//! Wall-clock time in unix milliseconds.

use vstd::prelude::*;

verus! {

/// `SystemTime::elapsed` on `UNIX_EPOCH`: the time since the unix epoch, or
/// `None` when the system clock reads earlier than the epoch. Nothing is
/// stated of the value: it is the time.
#[verifier::external_body]
fn epoch_elapsed() -> Option<std::time::Duration> {
    std::time::UNIX_EPOCH.elapsed().ok()
}

/// `Duration::as_millis`: the whole milliseconds of `d`. Nothing is stated:
/// a `Duration` is opaque here.
#[verifier::external_body]
fn duration_millis(d: &std::time::Duration) -> u128 {
    d.as_millis()
}

/// Current unix time in milliseconds, saturating at `i64::MAX`; 0 when the
/// system clock reads earlier than the epoch.
pub fn now_ms() -> (r: i64)
    ensures
        r >= 0,
{
    let ms = match epoch_elapsed() {
        Some(d) => duration_millis(&d),
        None => 0,
    };
    if ms > 0x7fff_ffff_ffff_ffffu128 {
        0x7fff_ffff_ffff_ffffi64
    } else {
        ms as i64
    }
}

} // verus!
