//! The wall clock, read through `std::time`.

use vstd::prelude::*;

verus! {

#[verifier::external_type_specification]
#[verifier::external_body]
pub struct ExSystemTime(std::time::SystemTime);

/// `SystemTime::now`. Nothing is promised of the time it reads.
#[verifier::external_body]
pub(crate) fn system_now() -> std::time::SystemTime {
    std::time::SystemTime::now()
}

/// `SystemTime::duration_since(UNIX_EPOCH)`: `None` when the time is before the epoch.
/// Nothing is promised of the duration it reads.
#[verifier::external_body]
pub(crate) fn since_unix_epoch(t: &std::time::SystemTime) -> Option<std::time::Duration> {
    t.duration_since(std::time::UNIX_EPOCH).ok()
}

/// `Duration::as_millis`. The count depends on the duration, which is opaque here.
#[verifier::external_body]
pub(crate) fn duration_millis(d: &std::time::Duration) -> u128 {
    d.as_millis()
}

/// The milliseconds since the epoch as the graph store records them: 0 before the epoch, and
/// the count cut to 64 bits (`as i64`) after it.
pub fn now_ms() -> (r: i64) {
    let now = system_now();
    let ms: u128 = match since_unix_epoch(&now) {
        Some(d) => duration_millis(&d),
        None => 0,
    };
    ms_to_i64_wrapping(ms)
}

/// `ms as i64`: the low 64 bits read as a signed integer.
pub fn ms_to_i64_wrapping(ms: u128) -> (r: i64)
    ensures
        r == ms as i64,
        ms <= i64::MAX ==> r == ms,
{
    #[verifier::truncate]
    (ms as i64)
}

} // verus!
