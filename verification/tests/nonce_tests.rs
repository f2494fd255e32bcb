use rantang::nonce::{nonce, nonce_from_secs};

#[test]
fn nonce_is_positive_on_a_current_clock() {
    let nonce_value = nonce();
    assert!(nonce_value > 0);
    assert!(nonce_value <= u64::MAX / 30);
}

#[test]
fn nonce_buckets_are_thirty_seconds_wide() {
    assert_eq!(nonce_from_secs(0), 0);
    assert_eq!(nonce_from_secs(29), 0);
    assert_eq!(nonce_from_secs(30), 1);
    assert_eq!(nonce_from_secs(59), 1);
    assert_eq!(nonce_from_secs(60), 2);
}

#[test]
fn same_bucket_gives_equal_nonces_next_bucket_one_greater() {
    // Two readings within one 30-second bucket.
    assert_eq!(nonce_from_secs(1_700_000_011), nonce_from_secs(1_700_000_023));
    // A reading in the immediately following bucket.
    let before = 1_700_000_009u64;
    let after = 1_700_000_010u64;
    assert_eq!(nonce_from_secs(after), nonce_from_secs(before) + 1);
}
