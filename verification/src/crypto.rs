//! Keyed-signature codec and content digests.
//!
//! A signature is the lowercase hex encoding of an HMAC-SHA1 tag over a
//! message; content is addressed by the hex SHA-1 digest of its bytes. The
//! two primitives are called in their own crates behind trusted wrappers;
//! everything around them — hex transport, validity, the round trip — is
//! verified here.

use hmac::Mac;
use sha1::Digest;
use vstd::prelude::*;
use crate::codec::{hex_chars, hex_decode, hex_decode_str, is_hex_seq, lemma_hex_round_trip,
    to_hex_string};

verus! {

/// The HMAC-SHA1 authentication tag over `msg`, keyed by `key`. The tag is
/// a function of the key and message alone; its value is given by the
/// outside implementation.
pub uninterp spec fn hmac_sha1(key: Seq<u8>, msg: Seq<u8>) -> Seq<u8>;

/// The SHA-1 digest of a byte sequence. A function of the bytes alone; its
/// value is given by the outside implementation.
pub uninterp spec fn sha1_digest(data: Seq<u8>) -> Seq<u8>;

/// Relies on `hmac::Hmac::<sha1::Sha1>` (`new_from_slice`, `update`,
/// `finalize`): computes the HMAC-SHA1 tag of `msg` under `key`. HMAC
/// accepts a key of any length, and a SHA-1 tag is 20 bytes.
#[verifier::external_body]
fn hmac_sha1_tag(key: &[u8], msg: &[u8]) -> (r: Vec<u8>)
    ensures
        r@ == hmac_sha1(key@, msg@),
        r@.len() == 20,
{
    let mut mac = hmac::Hmac::<sha1::Sha1>::new_from_slice(key)
        .expect("HMAC accepts a key of any length");
    mac.update(msg);
    mac.finalize().into_bytes().to_vec()
}

/// Relies on `hmac::Hmac::<sha1::Sha1>` and `Mac::verify_slice`: returns
/// true exactly when `candidate` equals the HMAC-SHA1 tag of `msg` under
/// `key`, comparing in constant time so that no timing signal leaks which
/// tag bytes matched.
#[verifier::external_body]
fn hmac_sha1_check(key: &[u8], msg: &[u8], candidate: &[u8]) -> (r: bool)
    ensures
        r == (candidate@ == hmac_sha1(key@, msg@)),
{
    let mut mac = hmac::Hmac::<sha1::Sha1>::new_from_slice(key)
        .expect("HMAC accepts a key of any length");
    mac.update(msg);
    mac.verify_slice(candidate).is_ok()
}

/// Relies on `sha1::Sha1` (`new`, `update`, `finalize`): computes the
/// 20-byte SHA-1 digest of `data`.
#[verifier::external_body]
fn sha1_of(data: &[u8]) -> (r: Vec<u8>)
    ensures
        r@ == sha1_digest(data@),
        r@.len() == 20,
{
    let mut h = sha1::Sha1::new();
    h.update(data);
    h.finalize().to_vec()
}

/// A valid signature string for `msg` under `key`: well-formed hex whose
/// bytes are exactly the HMAC-SHA1 tag.
pub open spec fn sig_ok(key: Seq<u8>, msg: Seq<u8>, sig: Seq<char>) -> bool {
    is_hex_seq(sig) && hex_decode(sig) == hmac_sha1(key, msg)
}

/// Signs `message` under `key`: the lowercase hex encoding of the
/// HMAC-SHA1 tag. Accepts a key of any length and never fails.
pub fn sign_message(key: &[u8], message: &[u8]) -> (r: String)
    ensures
        r@ =~= hex_chars(hmac_sha1(key@, message@)),
        r@.len() == 40,
{
    let tag = hmac_sha1_tag(key, message);
    to_hex_string(tag.as_slice())
}

/// Verifies a candidate signature string for `message` under `key`.
/// Returns true exactly when `signature` is well-formed hex that decodes to
/// the HMAC-SHA1 tag; a malformed string is reported as false, never as a
/// failure. The tag comparison runs in constant time.
pub fn verify_signature(key: &[u8], message: &[u8], signature: &str) -> (r: bool)
    ensures
        r == sig_ok(key@, message@, signature@),
{
    match hex_decode_str(signature) {
        Some(provided) => hmac_sha1_check(key, message, provided.as_slice()),
        None => false,
    }
}

/// The lowercase hex SHA-1 digest of a byte buffer: the content address
/// under which a stored object is filed.
pub fn sha1_hex(content: &[u8]) -> (r: String)
    ensures
        r@ =~= hex_chars(sha1_digest(content@)),
        r@.len() == 40,
{
    let digest = sha1_of(content);
    to_hex_string(digest.as_slice())
}

/// A signature produced by `sign_message` is always accepted by
/// `verify_signature` for the same key and message.
pub proof fn lemma_sign_verify_round_trip(key: Seq<u8>, msg: Seq<u8>)
    ensures
        sig_ok(key, msg, hex_chars(hmac_sha1(key, msg))),
{
    lemma_hex_round_trip(hmac_sha1(key, msg));
}

/// A well-formed hex signature whose decoded bytes differ anywhere from the
/// HMAC-SHA1 tag — in particular, one with any bit of the tag flipped — is
/// rejected.
pub proof fn lemma_wrong_tag_rejected(key: Seq<u8>, msg: Seq<u8>, sig: Seq<char>)
    requires
        is_hex_seq(sig),
        hex_decode(sig) != hmac_sha1(key, msg),
    ensures
        !sig_ok(key, msg, sig),
{
}

/// A malformed (non-hex) signature string is rejected, for every key and
/// message.
pub proof fn lemma_malformed_signature_rejected(key: Seq<u8>, msg: Seq<u8>, sig: Seq<char>)
    requires
        !is_hex_seq(sig),
    ensures
        !sig_ok(key, msg, sig),
{
}

} // verus!
