//! The per-direction session cipher with its implicit nonce counter.

use crate::bytes::{be64, push_be64, zeros};
use crate::crypto::{
    aead_sealed, aead_takes, open_bytes, recovered, seal_bytes, AEAD_OVERHEAD, NONCE_LEN,
};
use vstd::prelude::*;

verus! {

/// Why a frame could not be sealed or opened.
#[derive(Clone, Copy, Debug, PartialEq, Eq, Structural)]
pub enum CipherError {
    /// The nonce counter is used up.
    NonceOverflow,
    /// The plaintext is too long, or the tag does not fit.
    Rejected,
}

/// One direction of a session: a key and the number of frames that it has
/// sealed or opened. The frame number is the nonce, so it never goes over the
/// wire.
#[derive(Debug)]
pub struct SessionCipher {
    key: [u8; 32],
    frames: u64,
}

/// The nonce of frame number `n`: four zero bytes and the number.
pub open spec fn frame_nonce(n: u64) -> Seq<u8> {
    zeros(4) + be64(n)
}

fn build_nonce(n: u64) -> (v: Vec<u8>)
    ensures
        v@ == frame_nonce(n),
        v@.len() == NONCE_LEN,
{
    let mut v: Vec<u8> = Vec::with_capacity(NONCE_LEN);
    v.push(0);
    v.push(0);
    v.push(0);
    v.push(0);
    assert(v@ =~= zeros(4));
    push_be64(&mut v, n);
    v
}

impl SessionCipher {
    /// The key.
    pub closed spec fn key(self) -> Seq<u8> {
        self.key@
    }

    /// The number of frames sealed or opened so far.
    pub closed spec fn frames(self) -> u64 {
        self.frames
    }

    /// What this cipher makes of a plaintext next.
    pub open spec fn seals_to(self, plaintext: Seq<u8>, aad: Seq<u8>) -> Seq<u8> {
        aead_sealed(self.key(), frame_nonce(self.frames()), aad, plaintext)
    }

    /// What this cipher recovers from a sealed body next.
    pub open spec fn opens_to(self, sealed: Seq<u8>, aad: Seq<u8>) -> Option<Seq<u8>> {
        recovered(self.key(), frame_nonce(self.frames()), aad, sealed)
    }

    /// Whether two ciphers are the two ends of one direction, at the same frame.
    pub open spec fn in_step_with(self, other: SessionCipher) -> bool {
        self.key() == other.key() && self.frames() == other.frames()
    }

    /// Whether `next` is this cipher after one more frame.
    pub open spec fn advanced_to(self, next: SessionCipher) -> bool {
        next.key() == self.key() && next.frames() == self.frames() + 1
    }

    /// A cipher that has not handled any frame yet.
    pub fn new(key: &[u8; 32]) -> (c: SessionCipher)
        ensures
            c.key() == key@,
            c.frames() == 0,
    {
        SessionCipher { key: *key, frames: 0 }
    }

    /// A cipher that has already handled `frames` frames.
    pub fn resumed(key: &[u8; 32], frames: u64) -> (c: SessionCipher)
        ensures
            c.key() == key@,
            c.frames() == frames,
    {
        SessionCipher { key: *key, frames }
    }

    /// The number of frames sealed or opened so far.
    pub fn frames_processed(&self) -> (n: u64)
        ensures
            n == self.frames(),
    {
        self.frames
    }

    /// Seals the next frame body. The counter advances exactly when a sealed
    /// body is returned.
    pub fn seal(&mut self, plaintext: &[u8], aad: &[u8]) -> (r: Result<Vec<u8>, CipherError>)
        ensures
            r is Ok <==> old(self).frames() < u64::MAX && aead_takes(plaintext@.len()),
            r matches Err(e) ==> (e == CipherError::NonceOverflow <==> old(self).frames()
                == u64::MAX),
            r is Err ==> *final(self) == *old(self),
            r matches Ok(sealed) ==> {
                &&& sealed@ == old(self).seals_to(plaintext@, aad@)
                &&& sealed@.len() == plaintext@.len() + AEAD_OVERHEAD
                &&& old(self).opens_to(sealed@, aad@) == Some(plaintext@)
                &&& old(self).advanced_to(*final(self))
            },
    {
        if self.frames == u64::MAX {
            return Err(CipherError::NonceOverflow);
        }
        let nonce: Vec<u8> = build_nonce(self.frames);
        match seal_bytes(self.key.as_slice(), nonce.as_slice(), aad, plaintext) {
            Some(sealed) => {
                self.frames = self.frames + 1;
                Ok(sealed)
            },
            None => Err(CipherError::Rejected),
        }
    }

    /// Opens the next frame body. The counter advances exactly when a plaintext
    /// is returned, so a body of another key leaves the cipher as it was.
    pub fn open(&mut self, sealed: &[u8], aad: &[u8]) -> (r: Result<Vec<u8>, CipherError>)
        ensures
            r is Ok <==> old(self).frames() < u64::MAX && old(self).opens_to(sealed@, aad@) is Some,
            r matches Err(e) ==> (e == CipherError::NonceOverflow <==> old(self).frames()
                == u64::MAX),
            r is Err ==> *final(self) == *old(self),
            r matches Ok(plaintext) ==> {
                &&& old(self).opens_to(sealed@, aad@) == Some(plaintext@)
                &&& plaintext@.len() + AEAD_OVERHEAD == sealed@.len()
                &&& old(self).advanced_to(*final(self))
            },
    {
        if self.frames == u64::MAX {
            return Err(CipherError::NonceOverflow);
        }
        let nonce: Vec<u8> = build_nonce(self.frames);
        match open_bytes(self.key.as_slice(), nonce.as_slice(), aad, sealed) {
            Some(plaintext) => {
                self.frames = self.frames + 1;
                Ok(plaintext)
            },
            None => Err(CipherError::Rejected),
        }
    }
}

/// What one end of a direction seals the other end opens, when they are in step and agree
/// on what is authenticated, and then both have moved on by one frame and are in step
/// again.
pub proof fn what_is_sealed_is_opened(
    tx: &mut SessionCipher,
    rx: &mut SessionCipher,
    plaintext: &[u8],
    aad: &[u8],
    sealed: Vec<u8>,
    wire: &[u8],
    r: Result<Vec<u8>, CipherError>,
)
    requires
        old(tx).key() == old(rx).key(),
        old(tx).frames() == old(rx).frames(),
        call_ensures(SessionCipher::seal, (tx, plaintext, aad), Ok(sealed)),
        wire@ == sealed@,
        call_ensures(SessionCipher::open, (rx, wire, aad), r),
    ensures
        r is Ok && r->Ok_0@ == plaintext@,
        sealed@.len() == plaintext@.len() + 16,
        final(tx).key() == old(tx).key() && final(rx).key() == old(rx).key(),
        final(tx).frames() == old(tx).frames() + 1,
        final(rx).frames() == final(tx).frames(),
{
}

/// No frame number is used twice: sealing and opening count up by one exactly where they
/// succeed, stop at the last number, and change nothing where they fail.
pub proof fn frame_numbers_only_go_up(
    c: &mut SessionCipher,
    d: &mut SessionCipher,
    bytes: &[u8],
    aad: &[u8],
    s: Result<Vec<u8>, CipherError>,
    o: Result<Vec<u8>, CipherError>,
)
    requires
        call_ensures(SessionCipher::seal, (c, bytes, aad), s),
        call_ensures(SessionCipher::open, (d, bytes, aad), o),
    ensures
        s is Ok ==> final(c).frames() == old(c).frames() + 1,
        s is Err ==> *final(c) == *old(c),
        o is Ok ==> final(d).frames() == old(d).frames() + 1,
        o is Err ==> *final(d) == *old(d),
        old(c).frames() == u64::MAX ==> s == Err::<Vec<u8>, CipherError>(
            CipherError::NonceOverflow,
        ),
        old(d).frames() == u64::MAX ==> o == Err::<Vec<u8>, CipherError>(
            CipherError::NonceOverflow,
        ),
        old(c).frames() < u64::MAX && s is Err ==> s->Err_0 == CipherError::Rejected,
        old(d).frames() < u64::MAX && o is Err ==> o->Err_0 == CipherError::Rejected,
        old(c).frames() < u64::MAX && bytes@.len() <= 0xffff_ffff ==> s is Ok,
        final(c).key() == old(c).key(),
        final(d).key() == old(d).key(),
{
}

/// Frames of different numbers never share a nonce.
pub proof fn nonces_do_not_repeat(n: u64, m: u64)
    ensures
        frame_nonce(n).len() == 12,
        frame_nonce(n) == frame_nonce(m) ==> n == m,
{
    crate::bytes::lemma_be64(n);
    crate::bytes::lemma_be64(m);
    if frame_nonce(n) == frame_nonce(m) {
        assert(be64(n) =~= frame_nonce(n).subrange(4, 12));
        assert(be64(m) =~= frame_nonce(m).subrange(4, 12));
    }
}

} // verus!
