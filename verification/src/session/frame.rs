//! Frames on the wire: the header, sealing, and padding to common record sizes.

use crate::bytes::{
    append_bytes, be16, be32, be64, copy_bytes, lemma_be16, lemma_be32, lemma_be64, of_be16,
    of_be32, of_be64, push_be16, push_be32, push_be64, read_be16, read_be32, read_be64,
};
use crate::crypto::{aead_sealed, aead_takes, random_bytes, recovered, AEAD_OVERHEAD};
use crate::session::cipher::{frame_nonce, SessionCipher};
use crate::session::messages::{FrameFamily, SessionMsg};
use vstd::prelude::*;

verus! {

/// Length in bytes of a frame header.
pub const HEADER_SIZE: usize = 24;

/// The largest body that a header may announce.
pub const MAX_FRAME_BODY: u32 = 16_777_216;

/// The version that every header carries.
pub const WIRE_VERSION: u8 = 1;

/// Target sizes for a write of real frames and padding: one segment, a small
/// page fragment and a full record.
pub const TLS_BUCKET_SIZES: [usize; 3] = [1300, 4096, 16384];

/// The header of a frame.
#[derive(Clone, Copy, Debug, PartialEq, Eq, Structural)]
pub struct FrameHeader {
    pub family: u8,
    pub msg_type: u16,
    pub flags: u32,
    pub body_len: u32,
    pub request_id: u64,
}

/// Why bytes are not a header.
#[derive(Clone, Copy, Debug, PartialEq, Eq, Structural)]
pub enum HeaderError {
    /// There are fewer bytes than a header has.
    TooShort,
    /// The bytes do not start with the protocol's mark.
    BadMagic,
    /// The version is not the one spoken here.
    BadVersion,
    /// The announced body is over the limit.
    BodyTooLarge,
}

impl FrameHeader {
    /// A header of the given family and message type, with an empty body.
    pub fn new(family: u8, msg_type: u16) -> (h: FrameHeader)
        ensures
            h == FrameHeader::plain(family, msg_type, 0),
    {
        FrameHeader { family, msg_type, flags: 0, body_len: 0, request_id: 0 }
    }

    /// The header without flags or request number that announces `body_len`.
    pub open spec fn plain(family: u8, msg_type: u16, body_len: u32) -> FrameHeader {
        FrameHeader { family, msg_type, flags: 0, body_len, request_id: 0 }
    }

    /// The same header, announcing another body length.
    pub open spec fn announcing(self, body_len: u32) -> FrameHeader {
        FrameHeader { body_len, ..self }
    }
}

/// The mark at the start of every header.
pub open spec fn magic() -> Seq<u8> {
    seq![0x4fu8, 0x56u8, 0x4cu8, 0x31u8]
}

/// The bytes of a header.
#[verifier::opaque]
pub open spec fn header_bytes(h: FrameHeader) -> Seq<u8> {
    magic() + seq![WIRE_VERSION, h.family] + be16(h.msg_type) + be32(h.flags) + be32(h.body_len)
        + be64(h.request_id)
}

/// The header at the start of `s`, when there is a valid one that announces at
/// most `limit` bytes of body.
#[verifier::opaque]
pub open spec fn header_of(s: Seq<u8>, limit: u32) -> Result<FrameHeader, HeaderError> {
    if s.len() < HEADER_SIZE {
        Err(HeaderError::TooShort)
    } else if s.subrange(0, 4) != magic() {
        Err(HeaderError::BadMagic)
    } else if s[4] != WIRE_VERSION {
        Err(HeaderError::BadVersion)
    } else {
        let h = FrameHeader {
            family: s[5],
            msg_type: of_be16(s.subrange(6, 8)),
            flags: of_be32(s.subrange(8, 12)),
            body_len: of_be32(s.subrange(12, 16)),
            request_id: of_be64(s.subrange(16, 24)),
        };
        if h.body_len > limit {
            Err(HeaderError::BodyTooLarge)
        } else {
            Ok(h)
        }
    }
}

/// A header reads back from its own bytes, whatever follows them, exactly when
/// the body that it announces is within the limit.
pub proof fn header_reads_back(h: FrameHeader, rest: Seq<u8>, limit: u32)
    ensures
        header_bytes(h).len() == HEADER_SIZE,
        header_of(header_bytes(h) + rest, limit) == if h.body_len <= limit {
            Ok::<FrameHeader, HeaderError>(h)
        } else {
            Err::<FrameHeader, HeaderError>(HeaderError::BodyTooLarge)
        },
{
    reveal(header_bytes);
    reveal(header_of);
    lemma_be16(h.msg_type);
    lemma_be32(h.flags);
    lemma_be32(h.body_len);
    lemma_be64(h.request_id);
    let s = header_bytes(h) + rest;
    assert(s.subrange(0, 4) =~= magic());
    assert(s.subrange(6, 8) =~= be16(h.msg_type));
    assert(s.subrange(8, 12) =~= be32(h.flags));
    assert(s.subrange(12, 16) =~= be32(h.body_len));
    assert(s.subrange(16, 24) =~= be64(h.request_id));
}

/// A header that reads has all its bytes, and announces no more than the limit.
pub proof fn lemma_header_read(s: Seq<u8>, limit: u32)
    ensures
        header_of(s, limit) matches Ok(h) ==> s.len() >= HEADER_SIZE && h.body_len <= limit,
        s.len() < HEADER_SIZE ==> header_of(s, limit) == Err::<FrameHeader, HeaderError>(
            HeaderError::TooShort,
        ),
{
    reveal(header_of);
}

/// What follows a header does not change how it reads.
proof fn lemma_header_prefix(a: Seq<u8>, b: Seq<u8>, limit: u32)
    requires
        a.len() >= HEADER_SIZE,
    ensures
        header_of(a + b, limit) == header_of(a, limit),
{
    reveal(header_of);
    let w = a + b;
    assert(w.subrange(0, 4) =~= a.subrange(0, 4));
    assert(w.subrange(6, 8) =~= a.subrange(6, 8));
    assert(w.subrange(8, 12) =~= a.subrange(8, 12));
    assert(w.subrange(12, 16) =~= a.subrange(12, 16));
    assert(w.subrange(16, 24) =~= a.subrange(16, 24));
}

/// The bytes of a header.
pub fn encode_header(h: &FrameHeader) -> (v: Vec<u8>)
    ensures
        v@ == header_bytes(*h),
        v@.len() == HEADER_SIZE,
{
    let mut v: Vec<u8> = Vec::with_capacity(HEADER_SIZE);
    v.push(0x4f);
    v.push(0x56);
    v.push(0x4c);
    v.push(0x31);
    v.push(WIRE_VERSION);
    v.push(h.family);
    assert(v@ =~= magic() + seq![WIRE_VERSION, h.family]);
    push_be16(&mut v, h.msg_type);
    push_be32(&mut v, h.flags);
    push_be32(&mut v, h.body_len);
    push_be64(&mut v, h.request_id);
    proof {
        reveal(header_bytes);
        lemma_be64(h.request_id);
    }
    v
}

/// Reads the header at the start of `buf`, with the protocol's own body limit.
pub fn decode_header(buf: &[u8]) -> (r: Result<FrameHeader, HeaderError>)
    ensures
        r == header_of(buf@, MAX_FRAME_BODY),
{
    decode_header_with_limit(buf, MAX_FRAME_BODY)
}

/// Reads the header at the start of `buf`, with a body limit of `limit`.
pub fn decode_header_with_limit(buf: &[u8], limit: u32) -> (r: Result<FrameHeader, HeaderError>)
    ensures
        r == header_of(buf@, limit),
{
    proof {
        reveal(header_of);
    }
    if buf.len() < HEADER_SIZE {
        return Err(HeaderError::TooShort);
    }
    if !(buf[0] == 0x4f && buf[1] == 0x56 && buf[2] == 0x4c && buf[3] == 0x31) {
        proof {
            let m = buf@.subrange(0, 4);
            assert(m[0] == buf@[0] && m[1] == buf@[1] && m[2] == buf@[2] && m[3] == buf@[3]);
        }
        return Err(HeaderError::BadMagic);
    }
    assert(buf@.subrange(0, 4) =~= magic());
    if buf[4] != WIRE_VERSION {
        return Err(HeaderError::BadVersion);
    }
    let h: FrameHeader = FrameHeader {
        family: buf[5],
        msg_type: read_be16(buf, 6),
        flags: read_be32(buf, 8),
        body_len: read_be32(buf, 12),
        request_id: read_be64(buf, 16),
    };
    if h.body_len > limit {
        Err(HeaderError::BodyTooLarge)
    } else {
        Ok(h)
    }
}

/// The data that is authenticated with a body: its family and message type.
pub open spec fn aad_of(family: u8, msg_type: u16) -> Seq<u8> {
    seq![family] + be16(msg_type)
}

/// The data that is authenticated with a body: its family and message type.
pub fn frame_aad(family: u8, msg_type: u16) -> (v: Vec<u8>)
    ensures
        v@ == aad_of(family, msg_type),
{
    let mut v: Vec<u8> = Vec::with_capacity(3);
    v.push(family);
    assert(v@ =~= seq![family]);
    push_be16(&mut v, msg_type);
    v
}

/// The plaintext frame of a family, message type and body.
pub open spec fn plain_frame(family: u8, msg_type: u16, body: Seq<u8>) -> Seq<u8> {
    header_bytes(FrameHeader::plain(family, msg_type, body.len() as u32)) + body
}

/// Builds the plaintext frame of a family, message type and body.
pub fn build_frame(family: u8, msg_type: u16, body: &[u8]) -> (v: Vec<u8>)
    requires
        body@.len() <= u32::MAX,
    ensures
        v@ == plain_frame(family, msg_type, body@),
        v@.len() == HEADER_SIZE + body@.len(),
{
    let mut h: FrameHeader = FrameHeader::new(family, msg_type);
    h.body_len = body.len() as u32;
    let mut v: Vec<u8> = encode_header(&h);
    append_bytes(&mut v, body);
    v
}

/// What sealing does to a frame with the header `h`: the header announces the
/// sealed body, and the sealed body stands behind it.
pub open spec fn sealed_with(h: FrameHeader, sealed_body: Seq<u8>) -> Seq<u8> {
    header_bytes(h.announcing((sealed_body.len() % 0x1_0000_0000) as u32)) + sealed_body
}

/// Whether `frame` is long enough to be sealed and starts with a valid header.
pub open spec fn has_header(frame: Seq<u8>) -> bool {
    header_of(frame, MAX_FRAME_BODY) is Ok
}

/// The body of a frame.
pub open spec fn body_of(frame: Seq<u8>) -> Seq<u8> {
    frame.subrange(HEADER_SIZE as int, frame.len() as int)
}

/// The frame that a receiver reads when `frame` is sealed and sent: the header
/// announces the sealed length, the body is the plaintext.
pub open spec fn received(frame: Seq<u8>) -> (FrameHeader, Seq<u8>) {
    let h = header_of(frame, MAX_FRAME_BODY)->Ok_0;
    (h.announcing((body_of(frame).len() + AEAD_OVERHEAD) as u32), body_of(frame))
}

/// Whether a receiver can take `frame` once it is sealed.
pub open spec fn receivable(frame: Seq<u8>) -> bool {
    has_header(frame) && body_of(frame).len() + AEAD_OVERHEAD <= MAX_FRAME_BODY
}

/// The frames that a receiver whose next frame number is `first` reads from
/// `wire`, or nothing when it stops at a bad header, a cut-off body or a body
/// that does not open.
#[verifier::opaque]
pub open spec fn read_frames(wire: Seq<u8>, key: Seq<u8>, first: nat) -> Option<
    Seq<(FrameHeader, Seq<u8>)>,
>
    decreases wire.len(),
{
    if wire.len() == 0 {
        Some(Seq::empty())
    } else {
        match header_of(wire, MAX_FRAME_BODY) {
            Err(_) => None,
            Ok(h) => {
                let end = HEADER_SIZE + h.body_len;
                if end > wire.len() || first >= u64::MAX {
                    None
                } else {
                    match recovered(
                        key,
                        frame_nonce(first as u64),
                        aad_of(h.family, h.msg_type),
                        wire.subrange(HEADER_SIZE as int, end),
                    ) {
                        None => None,
                        Some(body) => match read_frames(
                            wire.subrange(end, wire.len() as int),
                            key,
                            first + 1,
                        ) {
                            None => None,
                            Some(rest) => Some(seq![(h, body)] + rest),
                        },
                    }
                }
            },
        }
    }
}

/// An empty stretch of wire holds no frames.
pub proof fn read_frames_of_nothing(key: Seq<u8>, first: nat)
    ensures
        read_frames(Seq::empty(), key, first) == Some(Seq::<(FrameHeader, Seq<u8>)>::empty()),
{
    reveal_with_fuel(read_frames, 1);
}

/// Reading two stretches of wire one after the other gives the frames of the
/// first and then those of the second.
#[verifier::spinoff_prover]
#[verifier::rlimit(60)]
pub proof fn read_frames_of_concatenation(a: Seq<u8>, b: Seq<u8>, key: Seq<u8>, first: nat)
    requires
        read_frames(a, key, first) is Some,
    ensures
        read_frames(a + b, key, first) == match read_frames(
            b,
            key,
            first + read_frames(a, key, first)->0.len(),
        ) {
            Some(rest) => Some(read_frames(a, key, first)->0 + rest),
            None => None,
        },
    decreases a.len(),
{
    reveal_with_fuel(read_frames, 1);
    if a.len() == 0 {
        assert(a + b =~= b);
        match read_frames(b, key, first) {
            Some(rest) => {
                assert(Seq::<(FrameHeader, Seq<u8>)>::empty() + rest =~= rest);
            },
            None => {},
        }
    } else {
        let h = header_of(a, MAX_FRAME_BODY)->Ok_0;
        let end = HEADER_SIZE + h.body_len;
        let w = a + b;
        lemma_header_read(a, MAX_FRAME_BODY);
        lemma_header_prefix(a, b, MAX_FRAME_BODY);
        assert(w.subrange(HEADER_SIZE as int, end) =~= a.subrange(HEADER_SIZE as int, end));
        let a_rest = a.subrange(end, a.len() as int);
        assert(w.subrange(end, w.len() as int) =~= a_rest + b);
        read_frames_of_concatenation(a_rest, b, key, first + 1);
        let body = recovered(
            key,
            frame_nonce(first as u64),
            aad_of(h.family, h.msg_type),
            a.subrange(HEADER_SIZE as int, end),
        )->0;
        let fa_rest = read_frames(a_rest, key, first + 1)->0;
        let fa = read_frames(a, key, first)->0;
        assert(fa =~= seq![(h, body)] + fa_rest);
        match read_frames(b, key, first + fa.len()) {
            Some(rest) => {
                assert(seq![(h, body)] + (fa_rest + rest) =~= fa + rest);
            },
            None => {},
        }
    }
}

/// One sealed frame reads back as itself.
proof fn lemma_sealed_frame_reads_back(frame: Seq<u8>, sealed_body: Seq<u8>, key: Seq<u8>, n: u64)
    requires
        receivable(frame),
        n < u64::MAX,
        sealed_body.len() == body_of(frame).len() + AEAD_OVERHEAD,
        ({
            let h = header_of(frame, MAX_FRAME_BODY)->Ok_0;
            recovered(key, frame_nonce(n), aad_of(h.family, h.msg_type), sealed_body) == Some(
                body_of(frame),
            )
        }),
    ensures
        read_frames(
            sealed_with(header_of(frame, MAX_FRAME_BODY)->Ok_0, sealed_body),
            key,
            n as nat,
        ) == Some(seq![received(frame)]),
{
    let h = header_of(frame, MAX_FRAME_BODY)->Ok_0;
    let out_h = h.announcing(sealed_body.len() as u32);
    let w = sealed_with(h, sealed_body);
    lemma_header_read(frame, MAX_FRAME_BODY);
    header_reads_back(out_h, sealed_body, MAX_FRAME_BODY);
    let end = HEADER_SIZE + out_h.body_len;
    assert(w.len() == end);
    assert(w.subrange(HEADER_SIZE as int, end) =~= sealed_body);
    assert(w.subrange(end, w.len() as int) =~= Seq::<u8>::empty());
    reveal_with_fuel(read_frames, 2);
    assert(seq![(out_h, body_of(frame))] + Seq::<(FrameHeader, Seq<u8>)>::empty() =~= seq![
        received(frame),
    ]);
}

/// What a frame becomes on the wire under `key` as frame number `n`, or nothing
/// when it has no valid header, the counter is used up or the body is too long.
pub open spec fn wire_of(frame: Seq<u8>, key: Seq<u8>, n: u64) -> Option<Seq<u8>> {
    if frame.len() < HEADER_SIZE {
        Some(frame)
    } else {
        match header_of(frame, MAX_FRAME_BODY) {
            Err(_) => None,
            Ok(h) => if n == u64::MAX || !aead_takes(body_of(frame).len()) {
                None
            } else {
                Some(
                    sealed_with(
                        h,
                        aead_sealed(
                            key,
                            frame_nonce(n),
                            aad_of(h.family, h.msg_type),
                            body_of(frame),
                        ),
                    ),
                )
            },
        }
    }
}

/// Seals one plaintext frame. A frame without a body is sealed too: its body on
/// the wire is the tag. Bytes too short to hold a header pass unchanged.
pub fn apply_tx_cipher(frame: &[u8], cipher: &mut SessionCipher) -> (r: Option<Vec<u8>>)
    ensures
        r is Some == wire_of(frame@, old(cipher).key(), old(cipher).frames()) is Some,
        r matches Some(w) ==> wire_of(frame@, old(cipher).key(), old(cipher).frames()) == Some(w@),
        r is None || frame@.len() < HEADER_SIZE ==> *final(cipher) == *old(cipher),
        r is Some && frame@.len() >= HEADER_SIZE ==> old(cipher).advanced_to(*final(cipher)),
        r matches Some(w) ==> frame@.len() >= HEADER_SIZE ==> w@.len() == frame@.len()
            + AEAD_OVERHEAD,
        r matches Some(w) ==> receivable(frame@) ==> read_frames(
            w@,
            old(cipher).key(),
            old(cipher).frames() as nat,
        ) == Some(seq![received(frame@)]),
{
    proof {
        lemma_header_read(frame@, MAX_FRAME_BODY);
    }
    if frame.len() < HEADER_SIZE {
        return Some(copy_bytes(frame));
    }
    let h: FrameHeader = match decode_header(frame) {
        Ok(h) => h,
        Err(_) => {
            return None;
        },
    };
    let aad: Vec<u8> = frame_aad(h.family, h.msg_type);
    let body: &[u8] = vstd::slice::slice_subrange(frame, HEADER_SIZE, frame.len());
    let sealed: Vec<u8> = match cipher.seal(body, aad.as_slice()) {
        Ok(s) => s,
        Err(_) => {
            return None;
        },
    };
    let announced: u32 = ((sealed.len() as u64) % 0x1_0000_0000) as u32;
    let out_h: FrameHeader = FrameHeader { body_len: announced, ..h };
    let mut out: Vec<u8> = encode_header(&out_h);
    append_bytes(&mut out, sealed.as_slice());
    proof {
        if receivable(frame@) {
            lemma_sealed_frame_reads_back(
                frame@,
                sealed@,
                old(cipher).key(),
                old(cipher).frames(),
            );
        }
    }
    Some(out)
}

/// The length that sealing gives a frame of `frame_len` bytes, when it can be
/// counted.
pub fn encrypted_wire_len(frame_len: usize) -> (r: Option<usize>)
    ensures
        r == if frame_len + AEAD_OVERHEAD <= usize::MAX {
            Some((frame_len + AEAD_OVERHEAD) as usize)
        } else {
            None
        },
{
    frame_len.checked_add(AEAD_OVERHEAD)
}

/// The smallest plaintext padding frame: a header and one byte.
pub fn padding_frame_min_bytes() -> (n: usize)
    ensures
        n == HEADER_SIZE + 1,
{
    HEADER_SIZE + 1
}

/// Whether a write of `len` bytes can be brought to exactly `bucket` bytes:
/// either it has that length, or the smallest sealed padding frame fits in.
pub open spec fn bucket_fits(len: int, bucket: int) -> bool {
    len == bucket || len + HEADER_SIZE + 1 + AEAD_OVERHEAD <= bucket
}

/// The smallest bucket that a write of `len` bytes can be brought to.
pub open spec fn bucket_for(len: int) -> Option<usize> {
    if bucket_fits(len, 1300) {
        Some(1300)
    } else if bucket_fits(len, 4096) {
        Some(4096)
    } else if bucket_fits(len, 16384) {
        Some(16384)
    } else {
        None
    }
}

/// The smallest bucket that a write of `wire_len` bytes can be brought to, or
/// nothing when it is too large for all of them.
pub fn pick_tls_bucket(wire_len: usize) -> (r: Option<usize>)
    ensures
        r == bucket_for(wire_len as int),
{
    let min_pad: usize = padding_frame_min_bytes() + AEAD_OVERHEAD;
    let mut i: usize = 0;
    while i < TLS_BUCKET_SIZES.len()
        invariant
            0 <= i <= 3,
            min_pad == HEADER_SIZE + 1 + AEAD_OVERHEAD,
            TLS_BUCKET_SIZES@ == seq![1300usize, 4096usize, 16384usize],
            forall|k: int| 0 <= k < i ==> !bucket_fits(wire_len as int, TLS_BUCKET_SIZES@[k] as int),
        decreases 3 - i,
    {
        let bucket: usize = TLS_BUCKET_SIZES[i];
        if wire_len == bucket || wire_len <= bucket - min_pad {
            return Some(bucket);
        }
        i = i + 1;
    }
    None
}

/// The length of a write of `real_wire_len` bytes once padding was added, when
/// padding is on.
pub open spec fn padded_len(real_wire_len: int, padding: bool) -> int {
    if padding {
        match bucket_for(real_wire_len) {
            Some(bucket) => bucket as int,
            None => real_wire_len,
        }
    } else {
        real_wire_len
    }
}

/// The length of a write of `real_wire_len` bytes once padding was added, when
/// padding is on. No cipher is touched.
pub fn padded_wire_len(real_wire_len: usize, padding: bool) -> (n: usize)
    ensures
        n == padded_len(real_wire_len as int, padding),
{
    if !padding {
        return real_wire_len;
    }
    match pick_tls_bucket(real_wire_len) {
        Some(bucket) => bucket,
        None => real_wire_len,
    }
}

/// Whether a sealed padding frame of exactly `target` bytes can exist.
pub open spec fn padding_fits(target: int) -> bool {
    HEADER_SIZE + 1 + AEAD_OVERHEAD <= target <= HEADER_SIZE + MAX_FRAME_BODY + AEAD_OVERHEAD
}

/// The plaintext padding frame with the given body.
pub open spec fn padding_frame(body: Seq<u8>) -> Seq<u8> {
    plain_frame(FrameFamily::Session.code_spec(), SessionMsg::Padding.code_spec(), body)
}

/// Seals a padding frame with the given body.
pub fn padding_wire(body: &[u8], cipher: &mut SessionCipher) -> (r: Option<Vec<u8>>)
    requires
        0 < body@.len() <= MAX_FRAME_BODY,
    ensures
        r is Some == (old(cipher).frames() < u64::MAX),
        r is None ==> *final(cipher) == *old(cipher),
        r matches Some(w) ==> {
            &&& wire_of(padding_frame(body@), old(cipher).key(), old(cipher).frames()) == Some(w@)
            &&& w@.len() == HEADER_SIZE + body@.len() + AEAD_OVERHEAD
            &&& old(cipher).advanced_to(*final(cipher))
            &&& body@.len() + AEAD_OVERHEAD <= MAX_FRAME_BODY ==> read_frames(
                w@,
                old(cipher).key(),
                old(cipher).frames() as nat,
            ) == Some(seq![received(padding_frame(body@))])
        },
{
    let frame: Vec<u8> = build_frame(FrameFamily::Session.code(), SessionMsg::Padding.code(), body);
    proof {
        let h = FrameHeader::plain(
            FrameFamily::Session.code_spec(),
            SessionMsg::Padding.code_spec(),
            body@.len() as u32,
        );
        header_reads_back(h, body@, MAX_FRAME_BODY);
        assert(body_of(frame@) =~= body@);
    }
    apply_tx_cipher(frame.as_slice(), cipher)
}

/// Builds a sealed padding frame of exactly `target` bytes with a random body,
/// when one can exist and the counter is not used up.
pub fn build_padding_wire(target: usize, cipher: &mut SessionCipher) -> (r: Option<Vec<u8>>)
    ensures
        r is Some == (padding_fits(target as int) && old(cipher).frames() < u64::MAX),
        r is None ==> *final(cipher) == *old(cipher),
        r matches Some(w) ==> {
            &&& w@.len() == target
            &&& old(cipher).advanced_to(*final(cipher))
            &&& exists|body: Seq<u8>|
                #![trigger padding_frame(body)]
                {
                    &&& body.len() == target - HEADER_SIZE - AEAD_OVERHEAD
                    &&& wire_of(padding_frame(body), old(cipher).key(), old(cipher).frames()) == Some(w@)
                    &&& body.len() + AEAD_OVERHEAD <= MAX_FRAME_BODY ==> read_frames(
                        w@,
                        old(cipher).key(),
                        old(cipher).frames() as nat,
                    ) == Some(seq![received(padding_frame(body))])
                }
        },
{
    if target <= HEADER_SIZE + AEAD_OVERHEAD {
        return None;
    }
    let body_len: usize = target - HEADER_SIZE - AEAD_OVERHEAD;
    if body_len > MAX_FRAME_BODY as usize {
        return None;
    }
    let body: Vec<u8> = random_bytes(body_len);
    padding_wire(body.as_slice(), cipher)
}

/// Brings a sealed write to the next bucket by appending one padding frame. The
/// write comes back unchanged when padding is off, when there is no cipher,
/// when no bucket fits, when it fills a bucket already, or when the counter is
/// used up.
pub fn coalesce_with_padding(
    real_wire: &[u8],
    tx_cipher: Option<&mut SessionCipher>,
    padding: bool,
) -> (out: Vec<u8>)
    ensures
        tx_cipher is None || !padding ==> out@ == real_wire@,
        tx_cipher matches Some(c) ==> {
            let pads = padding && bucket_for(real_wire@.len() as int) is Some && bucket_for(
                real_wire@.len() as int,
            )->0 != real_wire@.len() && c.frames() < u64::MAX;
            &&& !pads ==> out@ == real_wire@ && *final(c) == *c
            &&& pads ==> {
                &&& out@.len() == padded_len(real_wire@.len() as int, padding)
                &&& c.advanced_to(*final(c))
                &&& exists|body: Seq<u8>|
                    #![trigger padding_frame(body)]
                    {
                        &&& out@ == real_wire@ + wire_of(padding_frame(body), c.key(), c.frames())->0
                        &&& wire_of(padding_frame(body), c.key(), c.frames()) is Some
                        &&& read_frames(
                            wire_of(padding_frame(body), c.key(), c.frames())->0,
                            c.key(),
                            c.frames() as nat,
                        ) == Some(seq![received(padding_frame(body))])
                    }
            }
        },
{
    let cipher = match tx_cipher {
        Some(c) => c,
        None => {
            return copy_bytes(real_wire);
        },
    };
    if !padding {
        return copy_bytes(real_wire);
    }
    let bucket: usize = match pick_tls_bucket(real_wire.len()) {
        Some(b) => b,
        None => {
            return copy_bytes(real_wire);
        },
    };
    if real_wire.len() == bucket {
        return copy_bytes(real_wire);
    }
    let pad_target: usize = bucket - real_wire.len();
    let mut out: Vec<u8> = copy_bytes(real_wire);
    match build_padding_wire(pad_target, cipher) {
        Some(pad) => {
            append_bytes(&mut out, pad.as_slice());
        },
        None => {},
    }
    out
}

/// When bytes are a header: there are 24 of them, they begin with the mark and the
/// version, and the body is within the limit. The first of these that fails is what is
/// wrong. Each field is read from its own place.
pub proof fn when_bytes_are_a_header(
    buf: &[u8],
    limit: u32,
    r: Result<FrameHeader, HeaderError>,
)
    requires
        call_ensures(decode_header_with_limit, (buf, limit), r),
    ensures
        ({
            let s = buf@;
            let marked = s[0] == 0x4f && s[1] == 0x56 && s[2] == 0x4c && s[3] == 0x31;
            let len = of_be32(s.subrange(12, 16));
            &&& s.len() < 24 <==> r == Err::<FrameHeader, HeaderError>(HeaderError::TooShort)
            &&& s.len() >= 24 && !marked <==> r == Err::<FrameHeader, HeaderError>(
                HeaderError::BadMagic,
            )
            &&& s.len() >= 24 && marked && s[4] != 1 <==> r == Err::<FrameHeader, HeaderError>(
                HeaderError::BadVersion,
            )
            &&& s.len() >= 24 && marked && s[4] == 1 && len > limit <==> r == Err::<
                FrameHeader,
                HeaderError,
            >(HeaderError::BodyTooLarge)
            &&& r is Ok ==> r->Ok_0 == (FrameHeader {
                family: s[5],
                msg_type: of_be16(s.subrange(6, 8)),
                flags: of_be32(s.subrange(8, 12)),
                body_len: len,
                request_id: of_be64(s.subrange(16, 24)),
            })
        }),
{
    reveal(header_of);
    let s = buf@;
    if s.len() >= 24 {
        assert(s.subrange(0, 4)[0] == s[0]);
        assert(s.subrange(0, 4)[1] == s[1]);
        assert(s.subrange(0, 4)[2] == s[2]);
        assert(s.subrange(0, 4)[3] == s[3]);
        if s[0] == 0x4f && s[1] == 0x56 && s[2] == 0x4c && s[3] == 0x31 {
            assert(s.subrange(0, 4) =~= magic());
        }
    }
}

/// A header that was written is read as it was, whatever follows it.
pub proof fn headers_survive_the_wire(
    h: &FrameHeader,
    v: Vec<u8>,
    rest: Seq<u8>,
    buf: &[u8],
    r: Result<FrameHeader, HeaderError>,
)
    requires
        call_ensures(encode_header, (h,), v),
        buf@ == v@ + rest,
        call_ensures(decode_header, (buf,), r),
    ensures
        v@.len() == 24,
        h.body_len <= 16_777_216 ==> r == Ok::<FrameHeader, HeaderError>(*h),
        h.body_len > 16_777_216 ==> r == Err::<FrameHeader, HeaderError>(
            HeaderError::BodyTooLarge,
        ),
{
    header_reads_back(*h, rest, MAX_FRAME_BODY);
}

/// A frame that was built is read as the message that it was built for, with its body
/// behind it.
pub proof fn built_frames_are_read(
    family: u8,
    msg_type: u16,
    body: &[u8],
    v: Vec<u8>,
    buf: &[u8],
    r: Result<FrameHeader, HeaderError>,
)
    requires
        body@.len() <= 16_777_216,
        call_ensures(build_frame, (family, msg_type, body), v),
        buf@ == v@,
        call_ensures(decode_header, (buf,), r),
    ensures
        r is Ok,
        r->Ok_0.family == family,
        r->Ok_0.msg_type == msg_type,
        r->Ok_0.body_len == body@.len(),
        r->Ok_0.flags == 0,
        r->Ok_0.request_id == 0,
        v@.subrange(24, v@.len() as int) == body@,
        v@.len() == 24 + body@.len(),
{
    let h = FrameHeader::plain(family, msg_type, body@.len() as u32);
    header_reads_back(h, body@, MAX_FRAME_BODY);
    assert(v@.subrange(24, v@.len() as int) =~= body@);
}

/// What is authenticated with a body tells its family and message apart from all others.
pub proof fn every_message_is_authenticated_as_itself(
    family: u8,
    msg_type: u16,
    a: Vec<u8>,
    other_family: u8,
    other_type: u16,
    b: Vec<u8>,
)
    requires
        call_ensures(frame_aad, (family, msg_type), a),
        call_ensures(frame_aad, (other_family, other_type), b),
    ensures
        a@.len() == 3,
        a@ == b@ <==> family == other_family && msg_type == other_type,
{
    lemma_be16(msg_type);
    lemma_be16(other_type);
    assert(a@[0] == family);
    assert(b@[0] == other_family);
    assert(a@.subrange(1, 3) =~= be16(msg_type));
    assert(b@.subrange(1, 3) =~= be16(other_type));
}

/// A frame that is sealed reaches a receiver in step as the same message with the same
/// body, and takes up one frame number. What has no header passes as it is and takes up
/// none; where nothing can be sealed, nothing is used up.
pub proof fn a_sealed_frame_arrives(
    frame: &[u8],
    c: &mut SessionCipher,
    r: Option<Vec<u8>>,
)
    requires
        call_ensures(apply_tx_cipher, (frame, c), r),
    ensures
        frame@.len() < 24 ==> r is Some && r->0@ == frame@ && *final(c) == *old(c),
        r is None ==> *final(c) == *old(c),
        frame@.len() >= 24 && r is Some ==> {
            &&& r->0@.len() == frame@.len() + 16
            &&& final(c).frames() == old(c).frames() + 1
            &&& final(c).key() == old(c).key()
        },
        frame@.len() >= 24 && header_of(frame@, MAX_FRAME_BODY) is Ok && frame@.len() - 24 + 16
            <= 16_777_216 ==> {
            let h = header_of(frame@, MAX_FRAME_BODY)->Ok_0;
            let got = read_frames(r->0@, old(c).key(), old(c).frames() as nat);
            &&& r is Some <==> old(c).frames() < u64::MAX
            &&& r is Some ==> got is Some && got->0.len() == 1
            &&& r is Some ==> got->0[0].1 == frame@.subrange(24, frame@.len() as int)
            &&& r is Some ==> got->0[0].0.family == h.family && got->0[0].0.msg_type
                == h.msg_type && got->0[0].0.request_id == h.request_id && got->0[0].0.flags
                == h.flags && got->0[0].0.body_len == frame@.len() - 24 + 16
        },
        frame@.len() >= 24 && header_of(frame@, MAX_FRAME_BODY) is Err ==> r is None,
{
}

/// The sizes that writes are padded to are 1300, 4096 and 16384 bytes, and a write is
/// brought to the smallest that it fills or that has room for a padding frame, of which
/// the smallest takes 41 bytes.
pub proof fn writes_are_padded_to_the_smallest_bucket(
    len: usize,
    padding: bool,
    r: Option<usize>,
    n: usize,
)
    requires
        call_ensures(pick_tls_bucket, (len,), r),
        call_ensures(padded_wire_len, (len, padding), n),
    ensures
        r is Some ==> r->0 == 1300 || r->0 == 4096 || r->0 == 16384,
        r is Some ==> len == r->0 || len + 41 <= r->0,
        len == 1300 || len + 41 <= 1300 ==> r == Some(1300usize),
        len == 4096 || len + 41 <= 4096 ==> r is Some && r->0 <= 4096,
        len == 16384 || len + 41 <= 16384 ==> r is Some && r->0 <= 16384,
        !padding || r is None ==> n == len,
        padding && r is Some ==> n == r->0,
        n >= len,
{
}

/// Padding is put behind a write and changes nothing of it; the write then fills its
/// bucket. Nothing is put behind where padding is off, the write has its size already,
/// is too long, or the counter has run out.
pub proof fn padding_stands_behind(
    plain: &[u8],
    c: &mut SessionCipher,
    padding: bool,
    out: Vec<u8>,
)
    requires
        call_ensures(coalesce_with_padding, (plain, Some(c), padding), out),
    ensures
        out@.len() >= plain@.len(),
        out@.subrange(0, plain@.len() as int) == plain@,
        !padding || old(c).frames() == u64::MAX || plain@.len() > 16384 ==> out@ == plain@ && *final(c) == *old(c),
        padding && old(c).frames() < u64::MAX && plain@.len() + 41 <= 1300 ==> out@.len() == 1300,
        padding && old(c).frames() < u64::MAX && 1300 < plain@.len() && plain@.len() + 41 <= 4096
            ==> out@.len() == 4096,
        padding && old(c).frames() < u64::MAX && 4096 < plain@.len() && plain@.len() + 41 <= 16384
            ==> out@.len() == 16384,
        out@.len() > plain@.len() ==> final(c).frames() == old(c).frames() + 1 && final(c).key()
            == old(c).key(),
        out@.len() == plain@.len() ==> *final(c) == *old(c),
{
    let n = plain@.len() as int;
    assert(out@.subrange(0, n) =~= plain@) by {
        if out@ != plain@ {
            let body = choose|body: Seq<u8>|
                #![trigger padding_frame(body)]
                {
                    &&& out@ == plain@ + wire_of(padding_frame(body), old(c).key(), old(c).frames())->0
                    &&& wire_of(padding_frame(body), old(c).key(), old(c).frames()) is Some
                    &&& read_frames(
                        wire_of(padding_frame(body), old(c).key(), old(c).frames())->0,
                        old(c).key(),
                        old(c).frames() as nat,
                    ) == Some(seq![received(padding_frame(body))])
                };
        }
    }
}

/// A padding frame has exactly the asked-for length, when one can have it, and reaches
/// the receiver as padding.
pub proof fn padding_has_the_asked_for_length(
    target: usize,
    c: &mut SessionCipher,
    r: Option<Vec<u8>>,
)
    requires
        call_ensures(build_padding_wire, (target, c), r),
    ensures
        r is Some <==> 41 <= target <= 24 + 16_777_216 + 16 && old(c).frames() < u64::MAX,
        r is Some ==> r->0@.len() == target && final(c).frames() == old(c).frames() + 1,
        r is None ==> *final(c) == *old(c),
        r is Some && target <= 24 + 16_777_216 ==> {
            let got = read_frames(r->0@, old(c).key(), old(c).frames() as nat);
            &&& got is Some && got->0.len() == 1
            &&& got->0[0].0.family == FrameFamily::Session.code_spec()
            &&& got->0[0].0.msg_type == SessionMsg::Padding.code_spec()
            &&& got->0[0].1.len() == target - 40
        },
{
    if r is Some && target <= 24 + 16_777_216 {
        let body = choose|body: Seq<u8>|
            #![trigger padding_frame(body)]
            {
                &&& body.len() == target - HEADER_SIZE - AEAD_OVERHEAD
                &&& wire_of(padding_frame(body), old(c).key(), old(c).frames()) == Some(r->0@)
                &&& body.len() + AEAD_OVERHEAD <= MAX_FRAME_BODY ==> read_frames(
                    r->0@,
                    old(c).key(),
                    old(c).frames() as nat,
                ) == Some(seq![received(padding_frame(body))])
            };
        let h = FrameHeader::plain(
            FrameFamily::Session.code_spec(),
            SessionMsg::Padding.code_spec(),
            body.len() as u32,
        );
        header_reads_back(h, body, MAX_FRAME_BODY);
        assert(body_of(padding_frame(body)) =~= body);
    }
}

} // verus!
