//! Time-bucketed nonce derivation.
//!
//! A nonce is the current Unix time in seconds, quantized to 30-second
//! buckets by integer division. It binds a request signature to a coarse
//! time window and so bounds how long a captured signature can be replayed.

use vstd::prelude::*;

verus! {

/// Width of one nonce bucket, in seconds.
pub const NONCE_BUCKET_SECS: u64 = 30;

/// The nonce value derived from a wall-clock reading of `secs` seconds
/// since the Unix epoch: the index of the 30-second bucket that contains it.
pub open spec fn nonce_of(secs: nat) -> nat {
    secs / 30
}

/// Relies on `std::time::SystemTime::now` and
/// `SystemTime::duration_since(UNIX_EPOCH)`: seconds elapsed since the Unix
/// epoch. The clock is outside the program, so nothing is promised of the
/// value; a clock reading before the epoch is reported as zero.
#[verifier::external_body]
fn now_unix_secs() -> u64 {
    match std::time::SystemTime::now().duration_since(std::time::SystemTime::UNIX_EPOCH) {
        Ok(d) => d.as_secs(),
        Err(_) => 0,
    }
}

/// The nonce for a given clock reading.
pub fn nonce_from_secs(secs: u64) -> (r: u64)
    ensures
        r == nonce_of(secs as nat),
{
    secs / 30
}

/// Returns a nonce value for use in authentication: the current 30-second
/// time bucket. Derived purely from the wall clock; carries no state.
/// Whatever the clock reads, the result is a bucket index of a `u64`
/// reading, so it sits well below `u64::MAX` and a caller can form the
/// window `{n - 1, n, n + 1}` without overflow above.
pub fn nonce() -> (r: u64)
    ensures
        r <= u64::MAX / 30,
{
    let secs = now_unix_secs();
    nonce_from_secs(secs)
}

/// Two clock readings in the same 30-second bucket give equal nonces, and a
/// reading in the immediately following bucket gives a nonce exactly one
/// greater.
pub proof fn lemma_nonce_buckets(s1: nat, s2: nat)
    ensures
        s1 / 30 == s2 / 30 ==> nonce_of(s1) == nonce_of(s2),
        s2 / 30 == s1 / 30 + 1 ==> nonce_of(s2) == nonce_of(s1) + 1,
{
}

} // verus!
