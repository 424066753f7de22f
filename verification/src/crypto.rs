//! The cryptographic functions that other crates compute, and the randomness
//! that the operating system supplies.

use chacha20poly1305::aead::{Aead, KeyInit, Payload};
use rand_core::RngCore;
use vstd::prelude::*;

verus! {

/// Length in bytes of an AEAD key.
pub const KEY_LEN: usize = 32;

/// Length in bytes of an AEAD nonce.
pub const NONCE_LEN: usize = 12;

/// Length in bytes of the authentication tag that sealing appends.
pub const AEAD_OVERHEAD: usize = 16;

/// What ChaCha20-Poly1305 makes of a plaintext: the ciphertext and, behind it,
/// the tag.
pub uninterp spec fn aead_sealed(
    key: Seq<u8>,
    nonce: Seq<u8>,
    aad: Seq<u8>,
    plaintext: Seq<u8>,
) -> Seq<u8>;

/// What ChaCha20-Poly1305 recovers from a ciphertext with its tag, or nothing
/// when the tag does not fit.
pub uninterp spec fn aead_opened(
    key: Seq<u8>,
    nonce: Seq<u8>,
    aad: Seq<u8>,
    sealed: Seq<u8>,
) -> Option<Seq<u8>>;

/// Whether ChaCha20-Poly1305 takes a plaintext of `len` bytes: the blocks of 64
/// bytes that it fills, the last one begun, must be left on a counter of 32 bits
/// of which the first block and the last one are not used.
pub open spec fn aead_takes(len: nat) -> bool {
    (len + 63) / 64 <= 0xffff_fffe
}

/// Whether a plaintext of `len` bytes can be sealed.
fn fits_aead(len: usize) -> (b: bool)
    ensures
        b == aead_takes(len as nat),
{
    let blocks: u64 = len as u64 / 64 + if len % 64 == 0 {
        0
    } else {
        1u64
    };
    blocks <= 0xffff_fffe
}

/// Calls `Aead::encrypt` of `chacha20poly1305::ChaCha20Poly1305` on a plaintext
/// that it takes. It returns the plaintext's length plus the tag, and decrypting
/// that under the same key, nonce and associated data gives the plaintext back.
/// The call fails on longer plaintexts, with a panic on some of them.
#[verifier::external_body]
fn aead_seal(key: &[u8], nonce: &[u8], aad: &[u8], plaintext: &[u8]) -> (sealed: Vec<u8>)
    requires
        key@.len() == KEY_LEN,
        nonce@.len() == NONCE_LEN,
        aead_takes(plaintext@.len()),
    ensures
        sealed@ == aead_sealed(key@, nonce@, aad@, plaintext@),
        sealed@.len() == plaintext@.len() + AEAD_OVERHEAD,
        aead_opened(key@, nonce@, aad@, sealed@) == Some(plaintext@),
{
    let cipher = chacha20poly1305::ChaCha20Poly1305::new(key.into());
    cipher.encrypt(nonce.into(), Payload { msg: plaintext, aad }).unwrap()
}

/// Calls `Aead::decrypt` of `chacha20poly1305::ChaCha20Poly1305` on an input that
/// has no more before its tag than is taken. It returns the plaintext, which is
/// shorter than its input by the tag, or nothing when the input is shorter than a
/// tag or the tag does not fit.
#[verifier::external_body]
fn aead_open(key: &[u8], nonce: &[u8], aad: &[u8], sealed: &[u8]) -> (r: Option<Vec<u8>>)
    requires
        key@.len() == KEY_LEN,
        nonce@.len() == NONCE_LEN,
        aead_takes_sealed(sealed@.len()),
    ensures
        r is Some == aead_opened(key@, nonce@, aad@, sealed@) is Some,
        r matches Some(plaintext) ==> {
            &&& aead_opened(key@, nonce@, aad@, sealed@) == Some(plaintext@)
            &&& plaintext@.len() + AEAD_OVERHEAD == sealed@.len()
        },
{
    let cipher = chacha20poly1305::ChaCha20Poly1305::new(key.into());
    cipher.decrypt(nonce.into(), Payload { msg: sealed, aad }).ok()
}

/// Whether ChaCha20-Poly1305 takes an input of `len` bytes for opening: what stands
/// before the tag must have a length that can be sealed.
pub open spec fn aead_takes_sealed(len: nat) -> bool {
    len < AEAD_OVERHEAD || aead_takes((len - AEAD_OVERHEAD) as nat)
}

/// What is recovered from a ciphertext with its tag: nothing when the tag does not
/// fit or there is more than can be sealed.
pub open spec fn recovered(
    key: Seq<u8>,
    nonce: Seq<u8>,
    aad: Seq<u8>,
    sealed: Seq<u8>,
) -> Option<Seq<u8>> {
    if aead_takes_sealed(sealed.len()) {
        aead_opened(key, nonce, aad, sealed)
    } else {
        None
    }
}

/// Seals a plaintext, unless it is too long.
pub(crate) fn seal_bytes(key: &[u8], nonce: &[u8], aad: &[u8], plaintext: &[u8]) -> (r: Option<
    Vec<u8>,
>)
    requires
        key@.len() == KEY_LEN,
        nonce@.len() == NONCE_LEN,
    ensures
        r is Some == aead_takes(plaintext@.len()),
        r matches Some(sealed) ==> {
            &&& sealed@ == aead_sealed(key@, nonce@, aad@, plaintext@)
            &&& sealed@.len() == plaintext@.len() + AEAD_OVERHEAD
            &&& recovered(key@, nonce@, aad@, sealed@) == Some(plaintext@)
        },
{
    if fits_aead(plaintext.len()) {
        Some(aead_seal(key, nonce, aad, plaintext))
    } else {
        None
    }
}

/// Opens a ciphertext with its tag.
pub(crate) fn open_bytes(key: &[u8], nonce: &[u8], aad: &[u8], sealed: &[u8]) -> (r: Option<
    Vec<u8>,
>)
    requires
        key@.len() == KEY_LEN,
        nonce@.len() == NONCE_LEN,
    ensures
        r is Some == recovered(key@, nonce@, aad@, sealed@) is Some,
        r matches Some(plaintext) ==> {
            &&& recovered(key@, nonce@, aad@, sealed@) == Some(plaintext@)
            &&& plaintext@.len() + AEAD_OVERHEAD == sealed@.len()
        },
{
    if sealed.len() < AEAD_OVERHEAD || fits_aead(sealed.len() - AEAD_OVERHEAD) {
        aead_open(key, nonce, aad, sealed)
    } else {
        None
    }
}

/// The BLAKE3 hash of a byte string.
pub uninterp spec fn blake3_hash(input: Seq<u8>) -> Seq<u8>;

/// Calls `blake3::hash`, which maps a byte string to 32 bytes.
#[verifier::external_body]
pub(crate) fn content_hash(input: &[u8]) -> (h: [u8; 32])
    ensures
        h@ == blake3_hash(input@),
{
    *blake3::hash(input).as_bytes()
}

/// Calls `RngCore::fill_bytes` of `rand_core::OsRng` on a buffer of `len`
/// bytes. Nothing is claimed of the bytes. The call panics when the operating
/// system has no randomness to give.
#[verifier::external_body]
pub(crate) fn random_bytes(len: usize) -> (v: Vec<u8>)
    ensures
        v@.len() == len,
{
    let mut v: Vec<u8> = vec![0u8; len];
    rand_core::OsRng.fill_bytes(&mut v);
    v
}

} // verus!
