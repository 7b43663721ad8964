//! PBKDF2-HMAC-SHA256 credentials and random salts, by way of `ring`.

use ring::pbkdf2;
use ring::rand::{SecureRandom, SystemRandom};
use std::num::NonZeroU32;
use vstd::prelude::*;

verus! {

/// Length in bytes of a stored credential: the SHA-256 output length.
pub const CREDENTIAL_LEN: usize = 32;

/// Inputs shorter than this many bytes are always accepted by SHA-256 (whose
/// limit is 2^64 - 1 bits) once HMAC has added its block and PBKDF2 its block
/// counter; no allocation on any machine reaches it.
pub open spec fn digestible(len: nat) -> bool {
    len < 0x1000_0000_0000_0000
}

/// The PBKDF2-HMAC-SHA256 derived key of length `len` for the given iteration
/// count, salt and secret (RFC 2898, section 5.2).
pub uninterp spec fn pbkdf2_hmac_sha256(iterations: u32, salt: Seq<u8>, secret: Seq<u8>, len: nat) -> Seq<u8>;

/// Calls `ring::pbkdf2::derive` with `PBKDF2_HMAC_SHA256` and an output buffer
/// of `CREDENTIAL_LEN` (32, SHA-256's output length) bytes. Claimed: the bytes
/// written are the PBKDF2 key of length 32 for these inputs. `derive` panics on salts or secrets too long for SHA-256, which
/// `requires` leaves out, and takes its iteration count as a `NonZeroU32`.
#[verifier::external_body]
pub(crate) fn pbkdf2_derive(iterations: u32, salt: &[u8], secret: &[u8]) -> (out: Vec<u8>)
    requires
        iterations != 0,
        digestible(salt@.len()),
        digestible(secret@.len()),
    ensures
        out@ == pbkdf2_hmac_sha256(iterations, salt@, secret@, CREDENTIAL_LEN as nat),
        out@.len() == CREDENTIAL_LEN,
{
    let mut out = vec![0u8; CREDENTIAL_LEN];
    pbkdf2::derive(pbkdf2::PBKDF2_HMAC_SHA256, NonZeroU32::new(iterations).unwrap(), salt, secret, &mut out);
    out
}

/// Calls `ring::pbkdf2::verify` with `PBKDF2_HMAC_SHA256` and tells whether it
/// returned `Ok`. Claimed: `Ok` only when `previously_derived` is not empty and
/// equals the PBKDF2 key of its own length; and `Ok` whenever that holds, the
/// inputs are short enough for SHA-256 and the key is no longer than PBKDF2 can
/// produce (2^32 - 1 blocks). `verify` derives block by block exactly as
/// `derive` does and compares each block.
#[verifier::external_body]
pub(crate) fn pbkdf2_verify(iterations: u32, salt: &[u8], secret: &[u8], previously_derived: &[u8]) -> (ok: bool)
    requires
        iterations != 0,
    ensures
        ok ==> previously_derived@.len() > 0 && pbkdf2_hmac_sha256(
            iterations,
            salt@,
            secret@,
            previously_derived@.len(),
        ) == previously_derived@,
        (previously_derived@.len() > 0 && previously_derived@.len() <= 0xffff_ffff * 32 && digestible(
            salt@.len(),
        ) && digestible(secret@.len()) && pbkdf2_hmac_sha256(
            iterations,
            salt@,
            secret@,
            previously_derived@.len(),
        ) == previously_derived@) ==> ok,
{
    pbkdf2::verify(pbkdf2::PBKDF2_HMAC_SHA256, NonZeroU32::new(iterations).unwrap(), salt, secret, previously_derived).is_ok()
}

/// Fills a buffer of `len` bytes with `ring::rand::SystemRandom::fill`.
/// Claimed: when the system generator succeeds the buffer has `len` bytes.
/// Which bytes come out, and whether the generator fails, is not stated: it
/// rests on the operating system.
#[verifier::external_body]
pub(crate) fn random_bytes(len: usize) -> (r: Option<Vec<u8>>)
    ensures
        r matches Some(bytes) ==> bytes@.len() == len,
{
    let mut bytes = vec![0u8; len];
    match SystemRandom::new().fill(&mut bytes) {
        Ok(()) => Some(bytes),
        Err(_) => None,
    }
}

} // verus!
