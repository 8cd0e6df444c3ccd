//! What the library reads from the operating system: the wall clock and
//! random bytes. Each read that can fail says so in its result, so that no
//! function of the library panics on a clock set before 1970 or a random
//! source that fails.

use vstd::prelude::*;

verus! {

#[verifier::external_type_specification]
#[verifier::external_body]
pub struct ExSystemTime(std::time::SystemTime);

#[verifier::external_type_specification]
#[verifier::external_body]
pub struct ExSystemTimeError(std::time::SystemTimeError);

/// Calls `SystemTime::now`. Which instant comes back is not stated.
#[verifier::external_body]
fn system_time_now() -> std::time::SystemTime {
    std::time::SystemTime::now()
}

/// Calls `SystemTime::duration_since` with the Unix epoch: the time elapsed
/// since the epoch, or an error for an instant before it. Which of the two
/// comes back is not stated.
#[verifier::external_body]
fn since_unix_epoch(t: &std::time::SystemTime) -> std::result::Result<
    std::time::Duration,
    std::time::SystemTimeError,
> {
    t.duration_since(std::time::UNIX_EPOCH)
}

/// Calls `Duration::as_secs`: the whole seconds of a duration.
#[verifier::external_body]
fn whole_seconds(d: &std::time::Duration) -> u64 {
    d.as_secs()
}

/// Calls `Duration::as_millis`: the whole milliseconds of a duration.
#[verifier::external_body]
fn whole_millis(d: &std::time::Duration) -> u128 {
    d.as_millis()
}

/// Whole seconds since the Unix epoch now; a clock set before the epoch
/// reads as the epoch itself.
pub fn seconds_since_epoch() -> u64 {
    let now = system_time_now();
    match since_unix_epoch(&now) {
        Ok(d) => whole_seconds(&d),
        Err(_) => 0,
    }
}

/// Whole milliseconds since the Unix epoch now, or `None` for a clock set
/// before the epoch.
pub fn millis_since_epoch() -> Option<u128> {
    let now = system_time_now();
    match since_unix_epoch(&now) {
        Ok(d) => Some(whole_millis(&d)),
        Err(_) => None,
    }
}

/// Calls `try_fill_bytes` of `rand::rngs::OsRng` on 16 bytes: the bytes the
/// operating system's random source gave, or `None` when it failed. Which
/// bytes come back is not stated.
#[verifier::external_body]
pub fn os_random_bytes() -> Option<[u8; 16]> {
    let mut bytes = [0u8; 16];
    match rand::RngCore::try_fill_bytes(&mut rand::rngs::OsRng, &mut bytes) {
        Ok(()) => Some(bytes),
        Err(_) => None,
    }
}

/// A random 64-bit word from the operating system's random source: its
/// first eight random bytes, the first the most significant; `None` when the
/// source failed. Which word comes back is not stated.
pub fn random_u64() -> Option<u64> {
    match os_random_bytes() {
        Some(bytes) => {
            let mut w: u64 = 0;
            let mut i: usize = 0;
            while i < 8
                invariant
                    i <= 8,
                decreases 8 - i,
            {
                w = w.wrapping_mul(256).wrapping_add(bytes[i] as u64);
                i = i + 1;
            }
            Some(w)
        },
        None => None,
    }
}

} // verus!
