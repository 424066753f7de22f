//! Sealing a group of queued frames into one write.

use crate::bytes::{append_bytes, copy_bytes};
use crate::crypto::AEAD_OVERHEAD;
use crate::session::cipher::SessionCipher;
use crate::session::frame::{
    apply_tx_cipher, bucket_for, coalesce_with_padding, encrypted_wire_len, lemma_header_read,
    padded_len, padded_wire_len, padding_frame, read_frames, read_frames_of_concatenation,
    read_frames_of_nothing, receivable, received, wire_of, FrameHeader, HEADER_SIZE,
    MAX_FRAME_BODY,
};
use crate::session::wire::{PushError, WireOutbox};
use vstd::prelude::*;

verus! {

/// The bytes that a group of frames is charged for: each frame and its tag.
pub open spec fn charged(frames: Seq<Vec<u8>>) -> int
    decreases frames.len(),
{
    if frames.len() == 0 {
        0
    } else {
        charged(frames.drop_last()) + frames.last()@.len() + AEAD_OVERHEAD
    }
}

/// How many frames of a group are sealed, that is, are long enough for a header.
pub open spec fn sealed_count(frames: Seq<Vec<u8>>) -> nat
    decreases frames.len(),
{
    if frames.len() == 0 {
        0
    } else {
        sealed_count(frames.drop_last()) + if frames.last()@.len() >= HEADER_SIZE {
            1nat
        } else {
            0nat
        }
    }
}

/// What a group of frames becomes on the wire under `key` from frame number `n`
/// on, or nothing when one of them cannot be sealed.
pub open spec fn batch_wire(frames: Seq<Vec<u8>>, key: Seq<u8>, n: u64) -> Option<Seq<u8>>
    decreases frames.len(),
{
    if frames.len() == 0 {
        Some(Seq::empty())
    } else {
        match batch_wire(frames.drop_last(), key, n) {
            None => None,
            Some(w) => match wire_of(
                frames.last()@,
                key,
                (n + sealed_count(frames.drop_last())) as u64,
            ) {
                None => None,
                Some(x) => Some(w + x),
            },
        }
    }
}

/// Whether a receiver can take every frame of a group.
pub open spec fn all_receivable(frames: Seq<Vec<u8>>) -> bool {
    forall|i: int| 0 <= i < frames.len() ==> receivable(#[trigger] frames[i]@)
}

/// What a receiver reads of a group.
pub open spec fn all_received(frames: Seq<Vec<u8>>) -> Seq<(FrameHeader, Seq<u8>)> {
    Seq::new(frames.len(), |i: int| received(frames[i]@))
}

/// The bytes that a group of frames is charged for, when they can be counted.
pub fn planned_batch_len(frames: &Vec<Vec<u8>>) -> (r: Option<usize>)
    ensures
        r == if charged(frames@) <= usize::MAX {
            Some(charged(frames@) as usize)
        } else {
            None
        },
{
    let mut total: usize = 0;
    let mut i: usize = 0;
    while i < frames.len()
        invariant
            0 <= i <= frames@.len(),
            total == charged(frames@.take(i as int)),
        decreases frames@.len() - i,
    {
        proof {
            assert(frames@.take(i + 1).drop_last() =~= frames@.take(i as int));
            lemma_charged_grows(frames@, i + 1);
        }
        match encrypted_wire_len(frames[i].len()) {
            None => {
                return None;
            },
            Some(n) => {
                match total.checked_add(n) {
                    None => {
                        return None;
                    },
                    Some(t) => {
                        total = t;
                    },
                }
            },
        }
        i = i + 1;
    }
    assert(frames@.take(i as int) =~= frames@);
    Some(total)
}

proof fn lemma_charged_grows(frames: Seq<Vec<u8>>, k: int)
    requires
        0 <= k <= frames.len(),
    ensures
        0 <= charged(frames.take(k)) <= charged(frames),
    decreases frames.len(),
{
    if k == frames.len() {
        assert(frames.take(k) =~= frames);
        if k > 0 {
            lemma_charged_grows(frames.drop_last(), k - 1);
            assert(frames.drop_last().take(k - 1) =~= frames.drop_last());
        }
    } else {
        lemma_charged_grows(frames.drop_last(), k);
        assert(frames.drop_last().take(k) =~= frames.take(k));
    }
}

/// Seals a group of frames one behind the other. When every frame is one that a
/// receiver can take, the write has the charged length, and a receiver that is
/// in step reads exactly those frames from it.
pub fn seal_batch(frames: &Vec<Vec<u8>>, cipher: &mut SessionCipher) -> (r: Option<Vec<u8>>)
    ensures
        r is Some == batch_wire(frames@, old(cipher).key(), old(cipher).frames()) is Some,
        final(cipher).key() == old(cipher).key(),
        r matches Some(w) ==> {
            &&& batch_wire(frames@, old(cipher).key(), old(cipher).frames()) == Some(w@)
            &&& final(cipher).frames() == old(cipher).frames() + sealed_count(frames@)
            &&& all_receivable(frames@) ==> {
                &&& w@.len() == charged(frames@)
                &&& sealed_count(frames@) == frames@.len()
                &&& read_frames(w@, old(cipher).key(), old(cipher).frames() as nat) == Some(
                    all_received(frames@),
                )
            }
        },
{
    let mut out: Vec<u8> = Vec::new();
    let mut i: usize = 0;
    let ghost key = cipher.key();
    let ghost n = cipher.frames();
    proof {
        read_frames_of_nothing(key, n as nat);
    }
    assert(frames@.take(0) =~= Seq::<Vec<u8>>::empty());
    assert(all_received(frames@.take(0)) =~= Seq::<(FrameHeader, Seq<u8>)>::empty());
    while i < frames.len()
        invariant
            0 <= i <= frames@.len(),
            key == cipher.key(),
            key == old(cipher).key(),
            n == old(cipher).frames(),
            batch_wire(frames@.take(i as int), key, n) == Some(out@),
            cipher.frames() == n + sealed_count(frames@.take(i as int)),
            all_receivable(frames@) ==> {
                &&& out@.len() == charged(frames@.take(i as int))
                &&& sealed_count(frames@.take(i as int)) == i
                &&& read_frames(out@, key, n as nat) == Some(all_received(frames@.take(i as int)))
            },
        decreases frames@.len() - i,
    {
        let ghost done = frames@.take(i as int);
        let ghost next = frames@.take(i + 1);
        let ghost before = out@;
        proof {
            assert(next.drop_last() =~= done);
            assert(next.last() == frames@[i as int]);
        }
        match apply_tx_cipher(frames[i].as_slice(), cipher) {
            None => {
                proof {
                    lemma_batch_fails(frames@, key, n, i + 1);
                }
                return None;
            },
            Some(w) => {
                append_bytes(&mut out, w.as_slice());
                proof {
                    if all_receivable(frames@) {
                        assert(receivable(frames@[i as int]@));
                        lemma_header_read(frames@[i as int]@, MAX_FRAME_BODY);
                        read_frames_of_concatenation(before, w@, key, n as nat);
                        assert(all_received(next) =~= all_received(done) + seq![
                            received(frames@[i as int]@),
                        ]);
                    }
                }
            },
        }
        i = i + 1;
    }
    assert(frames@.take(i as int) =~= frames@);
    Some(out)
}

proof fn lemma_batch_fails(frames: Seq<Vec<u8>>, key: Seq<u8>, n: u64, k: int)
    requires
        0 < k <= frames.len(),
        batch_wire(frames.take(k), key, n) is None,
    ensures
        batch_wire(frames, key, n) is None,
    decreases frames.len(),
{
    if k == frames.len() {
        assert(frames.take(k) =~= frames);
    } else {
        assert(frames.drop_last().take(k) =~= frames.take(k));
        lemma_batch_fails(frames.drop_last(), key, n, k);
    }
}

/// Seals a group of frames and adds one padding frame for the whole group. The
/// real frames always come first, so a receiver reads them and then, at most,
/// one padding frame.
pub fn seal_pass(frames: &Vec<Vec<u8>>, cipher: &mut SessionCipher, padding: bool) -> (r: Option<
    Vec<u8>,
>)
    ensures
        r is Some == batch_wire(frames@, old(cipher).key(), old(cipher).frames()) is Some,
        final(cipher).key() == old(cipher).key(),
        r matches Some(w) ==> {
            let body_wire = batch_wire(frames@, old(cipher).key(), old(cipher).frames())->0;
            let room = old(cipher).frames() + sealed_count(frames@) < u64::MAX;
            &&& w@.len() == padded_len(body_wire.len() as int, padding && room)
            &&& w@.take(body_wire.len() as int) == body_wire
            &&& final(cipher).frames() == old(cipher).frames() + sealed_count(frames@) + if w@.len()
                == body_wire.len() {
                0int
            } else {
                1
            }
            &&& all_receivable(frames@) ==> w@.len() == padded_len(
                charged(frames@),
                padding && room,
            )
            &&& all_receivable(frames@) ==> {
                let got = read_frames(w@, old(cipher).key(), old(cipher).frames() as nat);
                &&& sealed_count(frames@) == frames@.len()
                &&& got is Some
                &&& if w@.len() == body_wire.len() {
                    got->0 == all_received(frames@)
                } else {
                    exists|body: Seq<u8>|
                        got->0 == all_received(frames@) + seq![
                            received(#[trigger] padding_frame(body)),
                        ]
                }
            }
        },
{
    let ghost key = cipher.key();
    let ghost n = cipher.frames();
    match seal_batch(frames, cipher) {
        None => None,
        Some(body_wire) => {
            let ghost m = cipher.frames();
            let out: Vec<u8> = coalesce_with_padding(body_wire.as_slice(), Some(cipher), padding);
            proof {
                let pads = padding && bucket_for(body_wire@.len() as int) is Some && bucket_for(
                    body_wire@.len() as int,
                )->0 != body_wire@.len() && m < u64::MAX;
                if pads {
                    let body = choose|body: Seq<u8>|
                        #![trigger padding_frame(body)]
                        {
                            &&& out@ == body_wire@ + wire_of(padding_frame(body), key, m)->0
                            &&& wire_of(padding_frame(body), key, m) is Some
                            &&& read_frames(wire_of(padding_frame(body), key, m)->0, key, m as nat)
                                == Some(seq![received(padding_frame(body))])
                        };
                    let pad = wire_of(padding_frame(body), key, m)->0;
                    assert(out@.take(body_wire@.len() as int) =~= body_wire@);
                    if all_receivable(frames@) {
                        read_frames_of_concatenation(body_wire@, pad, key, n as nat);
                    }
                } else {
                    assert(out@.take(body_wire@.len() as int) =~= body_wire@);
                }
            }
            Some(out)
        },
    }
}

/// How many frames are taken from the queue at once at most.
pub const PQ_DRAIN_FRAMES_PER_PASS: usize = 256;

/// How many frames may be taken from the queue now: none while they are held back
/// or the writer has no slot, else a full pass. A pass without a cipher makes one
/// write of each frame and is bounded by the slots too.
pub open spec fn pass_limit(held_back: bool, slots: usize, sealed: bool) -> usize {
    if held_back || slots == 0 {
        0
    } else if sealed || slots > PQ_DRAIN_FRAMES_PER_PASS {
        PQ_DRAIN_FRAMES_PER_PASS
    } else {
        slots
    }
}

/// How many frames may be taken from the queue now.
pub fn drain_limit(held_back: bool, slots: usize, sealed: bool) -> (n: usize)
    ensures
        n == pass_limit(held_back, slots, sealed),
{
    if held_back || slots == 0 {
        0
    } else if sealed || slots > PQ_DRAIN_FRAMES_PER_PASS {
        PQ_DRAIN_FRAMES_PER_PASS
    } else {
        slots
    }
}

/// The length of the write that a group of frames will become, for which leave is
/// asked before anything is sealed. Nothing when it cannot be counted.
pub fn planned_pass_len(frames: &Vec<Vec<u8>>, padding: bool) -> (r: Option<usize>)
    ensures
        r is Some == (charged(frames@) <= usize::MAX),
        r matches Some(n) ==> n == padded_len(charged(frames@), padding),
{
    proof {
        lemma_charged_grows(frames@, frames@.len() as int);
    }
    match planned_batch_len(frames) {
        None => None,
        Some(n) => Some(padded_wire_len(n, padding)),
    }
}

/// What became of a group of frames.
#[derive(Clone, Copy, Debug, PartialEq, Eq, Structural)]
pub enum FlushOutcome {
    /// The frames were queued for the writer: so many bytes.
    Queued(u64),
    /// A frame could not be sealed: end the session.
    Close,
    /// The writer did not take the write: count the failure and end the session.
    WriteFailed,
}

/// What queueing a group of frames as one sealed write does: a frame that cannot
/// be sealed ends the session, a writer without room fails the write, and else one
/// write holds all frames and, at most, one padding frame behind them.
pub open spec fn flushes_sealed(
    frames: Seq<Vec<u8>>,
    cipher: SessionCipher,
    padding: bool,
    wire: WireOutbox,
    r: FlushOutcome,
    cipher_after: SessionCipher,
    wire_after: WireOutbox,
) -> bool {
    let key = cipher.key();
    let n = cipher.frames();
    let room = n + sealed_count(frames) < u64::MAX;
    &&& cipher_after.key() == key
    &&& match batch_wire(frames, key, n) {
        None => r is Close && wire_after == wire,
        Some(body) => if !wire.has_room() {
            r is WriteFailed && wire_after == wire
        } else {
            let w = wire_after.writes@.last()@;
            &&& r == FlushOutcome::Queued(w.len() as u64)
            &&& wire.grown_by(w, wire_after)
            &&& w.take(body.len() as int) == body
            &&& w.len() == padded_len(body.len() as int, padding && room)
            &&& cipher_after.frames() == n + sealed_count(frames) + if w.len() == body.len() {
                0int
            } else {
                1
            }
            &&& all_receivable(frames) ==> {
                let got = read_frames(w, key, n as nat);
                &&& sealed_count(frames) == frames.len()
                &&& w.len() == padded_len(charged(frames), padding && room)
                &&& got is Some
                &&& if w.len() == body.len() {
                    got->0 == all_received(frames)
                } else {
                    exists|pad: Seq<u8>|
                        got->0 == all_received(frames) + seq![
                            received(#[trigger] padding_frame(pad)),
                        ]
                }
            }
        },
    }
}

/// Seals a group of frames, for which leave was given, into one write and queues
/// it. Every frame that was sealed is in the write, so the two ends' counters stay
/// in step as long as the session goes on.
pub fn flush_sealed(
    frames: &Vec<Vec<u8>>,
    cipher: &mut SessionCipher,
    padding: bool,
    wire: &mut WireOutbox,
) -> (r: FlushOutcome)
    ensures
        flushes_sealed(
            frames@,
            *old(cipher),
            padding,
            *old(wire),
            r,
            *final(cipher),
            *final(wire),
        ),
{
    match seal_pass(frames, cipher, padding) {
        None => FlushOutcome::Close,
        Some(w) => {
            let len: u64 = w.len() as u64;
            match wire.push_wire(w) {
                Ok(()) => FlushOutcome::Queued(len),
                Err(_) => FlushOutcome::WriteFailed,
            }
        },
    }
}

/// The bytes of a group of frames.
pub open spec fn plain_bytes(frames: Seq<Vec<u8>>) -> nat
    decreases frames.len(),
{
    if frames.len() == 0 {
        0
    } else {
        plain_bytes(frames.drop_last()) + frames.last()@.len()
    }
}

/// What queueing a group of frames as they are does: each is a write of its own,
/// and those beyond the last slot are dropped.
pub open spec fn flushes_plain(
    frames: Seq<Vec<u8>>,
    wire: WireOutbox,
    r: FlushOutcome,
    wire_after: WireOutbox,
) -> bool {
    let k = if frames.len() <= wire.slots {
        frames.len() as int
    } else {
        wire.slots as int
    };
    if wire.closed && frames.len() > 0 {
        r is WriteFailed && wire_after == wire
    } else {
        &&& r == FlushOutcome::Queued(plain_bytes(frames.take(k)) as u64)
        &&& wire_after.writes@.len() == wire.writes@.len() + k
        &&& wire_after.writes@.take(wire.writes@.len() as int) == wire.writes@
        &&& forall|i: int|
            0 <= i < k ==> wire_after.writes@[wire.writes@.len() + i]@ == (#[trigger] frames[i])@
        &&& wire_after.slots == wire.slots - k
        &&& wire_after.closed == wire.closed
    }
}

/// Queues a group of frames as they are, each as a write of its own, while the
/// session is not encrypted yet. Frames beyond the last slot are dropped.
pub fn flush_plain(frames: &Vec<Vec<u8>>, wire: &mut WireOutbox) -> (r: FlushOutcome)
    requires
        plain_bytes(frames@) <= u64::MAX,
    ensures
        flushes_plain(frames@, *old(wire), r, *final(wire)),
{
    let mut i: usize = 0;
    let mut sent: u64 = 0;
    let ghost start = wire.writes@;
    assert(frames@.take(0) =~= Seq::<Vec<u8>>::empty());
    assert(start.take(start.len() as int) =~= start);
    while i < frames.len()
        invariant
            0 <= i <= frames@.len(),
            start == old(wire).writes@,
            plain_bytes(frames@) <= u64::MAX,
            wire.closed == old(wire).closed,
            i > 0 ==> !wire.closed,
            ({
                let k = if i <= old(wire).slots {
                    i as int
                } else {
                    old(wire).slots as int
                };
                &&& sent == plain_bytes(frames@.take(k))
                &&& wire.slots == old(wire).slots - k
                &&& wire.writes@.len() == start.len() + k
                &&& wire.writes@.take(start.len() as int) == start
                &&& forall|j: int|
                    0 <= j < k ==> wire.writes@[start.len() + j]@ == (#[trigger] frames@[j])@
                &&& i == 0 ==> *wire == *old(wire)
            }),
        decreases frames@.len() - i,
    {
        let ghost before = wire.writes@;
        let ghost k = if i <= old(wire).slots {
            i as int
        } else {
            old(wire).slots as int
        };
        let copy: Vec<u8> = copy_bytes(frames[i].as_slice());
        let len: usize = copy.len();
        match wire.push_wire(copy) {
            Ok(()) => {
                proof {
                    assert(k == i);
                    assert(frames@.take(i + 1).drop_last() =~= frames@.take(i as int));
                    lemma_plain_grows(frames@, i + 1);
                    assert(wire.writes@.take(start.len() as int) =~= start) by {
                        assert forall|j: int| 0 <= j < start.len() implies wire.writes@[j]
                            == start[j] by {
                            assert(before.take(start.len() as int)[j] == before[j]);
                        }
                    }
                    assert forall|j: int| 0 <= j < i + 1 implies wire.writes@[start.len() + j]@
                        == (#[trigger] frames@[j])@ by {
                        if j < i {
                            assert(before[start.len() + j]@ == frames@[j]@);
                        }
                    }
                }
                sent = sent + len as u64;
            },
            Err(PushError::Full) => {
                assert(k == old(wire).slots);
            },
            Err(PushError::Closed) => {
                assert(i == 0);
                return FlushOutcome::WriteFailed;
            },
        }
        i = i + 1;
    }
    FlushOutcome::Queued(sent)
}

proof fn lemma_plain_grows(frames: Seq<Vec<u8>>, k: int)
    requires
        0 <= k <= frames.len(),
    ensures
        plain_bytes(frames.take(k)) <= plain_bytes(frames),
    decreases frames.len(),
{
    if k == frames.len() {
        assert(frames.take(k) =~= frames);
    } else {
        lemma_plain_grows(frames.drop_last(), k);
        assert(frames.drop_last().take(k) =~= frames.take(k));
    }
}

/// How many frames are taken at once: none while they are held back or there is no slot,
/// 256 at most, and without a cipher no more than there are slots.
pub proof fn a_pass_is_bounded(held_back: bool, slots: usize, sealed: bool, n: usize)
    requires
        call_ensures(drain_limit, (held_back, slots, sealed), n),
    ensures
        n == 0 <==> held_back || slots == 0,
        n <= 256,
        !sealed ==> n <= slots,
        !held_back && slots > 0 && (sealed || slots >= 256) ==> n == 256,
        !held_back && 0 < slots < 256 && !sealed ==> n == slots,
{
}

/// What leave is asked for is what is written: the planned length of a pass is that of
/// the write that it becomes, as long as there is a frame number for the padding.
pub proof fn the_plan_is_what_is_written(
    frames: &Vec<Vec<u8>>,
    padding: bool,
    n: usize,
    c: &mut SessionCipher,
    w: Vec<u8>,
)
    requires
        all_receivable(frames@),
        call_ensures(planned_pass_len, (frames, padding), Some(n)),
        call_ensures(seal_pass, (frames, c, padding), Some(w)),
        old(c).frames() + frames@.len() < u64::MAX,
    ensures
        w@.len() == n,
{
}

proof fn lemma_charged_is_the_sum(frames: Seq<Vec<u8>>)
    ensures
        charged(frames) == plain_bytes(frames) + 16 * frames.len(),
    decreases frames.len(),
{
    if frames.len() > 0 {
        lemma_charged_is_the_sum(frames.drop_last());
    }
}

/// A group of frames is charged for its bytes and sixteen more for each frame.
pub proof fn every_tag_is_charged(frames: &Vec<Vec<u8>>, r: Option<usize>)
    requires
        call_ensures(planned_batch_len, (frames,), r),
    ensures
        r is Some <==> plain_bytes(frames@) + 16 * frames@.len() <= usize::MAX,
        r is Some ==> r->0 == plain_bytes(frames@) + 16 * frames@.len(),
{
    lemma_charged_is_the_sum(frames@);
}

/// A sealed group is read in its order, frame for frame, by a receiver in step, and takes
/// up as many frame numbers as it has frames; padding comes last and is one frame.
pub proof fn a_sealed_group_is_read_in_order(
    frames: &Vec<Vec<u8>>,
    c: &mut SessionCipher,
    padding: bool,
    r: Option<Vec<u8>>,
    i: int,
)
    requires
        call_ensures(seal_pass, (frames, c, padding), r),
        all_receivable(frames@),
        0 <= i < frames@.len(),
    ensures
        r is Some ==> {
            let got = read_frames(r->0@, old(c).key(), old(c).frames() as nat);
            let f = frames@[i]@;
            &&& got is Some
            &&& got->0[i].1 == f.subrange(24, f.len() as int)
            &&& got->0[i].0.family == crate::session::frame::header_of(
                f,
                MAX_FRAME_BODY,
            )->Ok_0.family
            &&& got->0[i].0.msg_type == crate::session::frame::header_of(
                f,
                MAX_FRAME_BODY,
            )->Ok_0.msg_type
            &&& frames@.len() <= got->0.len() <= frames@.len() + 1
            &&& !padding ==> got->0.len() == frames@.len()
            &&& final(c).frames() == old(c).frames() + got->0.len()
            &&& final(c).key() == old(c).key()
        },
{
    assert(all_received(frames@)[i] == received(frames@[i]@));
}

/// A group of frames becomes one write, which a receiver in step reads in their order, and
/// the cipher moves on by as many frames as the write holds. A writer without room gets
/// nothing, and a group that cannot be sealed ends the session.
pub proof fn a_group_becomes_one_write(
    frames: &Vec<Vec<u8>>,
    c: &mut SessionCipher,
    padding: bool,
    wire: &mut WireOutbox,
    r: FlushOutcome,
    i: int,
)
    requires
        call_ensures(flush_sealed, (frames, c, padding, wire), r),
    ensures
        final(c).key() == old(c).key(),
        r is Close || r is WriteFailed ==> *final(wire) == *old(wire),
        r is WriteFailed ==> old(wire).closed || old(wire).slots == 0,
        r is Queued ==> !old(wire).closed && old(wire).slots > 0,
        r is Queued ==> {
            let w = final(wire).writes@.last()@;
            &&& final(wire).writes@.len() == old(wire).writes@.len() + 1
            &&& final(wire).slots == old(wire).slots - 1
            &&& final(wire).closed == old(wire).closed
            &&& 0 <= i < old(wire).writes@.len() ==> final(wire).writes@[i] == old(wire).writes@[i]
            &&& w.len() <= u64::MAX ==> r->Queued_0 == w.len()
            &&& old(c).frames() <= final(c).frames()
        },
        r is Queued && all_receivable(frames@) ==> {
            let w = final(wire).writes@.last()@;
            let got = read_frames(w, old(c).key(), old(c).frames() as nat);
            &&& got is Some
            &&& frames@.len() <= got->0.len() <= frames@.len() + 1
            &&& final(c).frames() == old(c).frames() + got->0.len()
            &&& 0 <= i < frames@.len() ==> got->0[i].1 == frames@[i]@.subrange(
                24,
                frames@[i]@.len() as int,
            )
            &&& !padding ==> got->0.len() == frames@.len()
        },
{
    if r is Queued {
        let before = final(wire).writes@.drop_last();
        if 0 <= i < before.len() {
            assert(before[i] == final(wire).writes@[i]);
        }
        if all_receivable(frames@) && 0 <= i < frames@.len() {
            assert(all_received(frames@)[i] == received(frames@[i]@));
        }
    }
}

/// Frames that are not sealed are written one by one in their order, as many as there are
/// slots; what is written is counted, and a writer that has gone gets nothing.
pub proof fn plain_frames_become_writes_of_their_own(
    frames: &Vec<Vec<u8>>,
    wire: &mut WireOutbox,
    r: FlushOutcome,
    i: int,
    j: int,
)
    requires
        call_ensures(flush_plain, (frames, wire), r),
    ensures
        r is WriteFailed <==> old(wire).closed && frames@.len() > 0,
        r is WriteFailed ==> *final(wire) == *old(wire),
        r !is Close,
        r is Queued ==> {
            let k = final(wire).writes@.len() - old(wire).writes@.len();
            &&& k <= frames@.len() && k <= old(wire).slots
            &&& k == frames@.len() || k == old(wire).slots
            &&& final(wire).slots == old(wire).slots - k
            &&& final(wire).closed == old(wire).closed
            &&& 0 <= i < k ==> final(wire).writes@[old(wire).writes@.len() + i]@ == frames@[i]@
            &&& 0 <= j < old(wire).writes@.len() ==> final(wire).writes@[j] == old(wire).writes@[j]
            &&& k == frames@.len() && plain_bytes(frames@) <= u64::MAX ==> r->Queued_0
                == plain_bytes(frames@)
        },
{
    if r is Queued {
        let n = old(wire).writes@.len();
        let head = final(wire).writes@.take(n as int);
        if 0 <= j < n {
            assert(head[j] == final(wire).writes@[j]);
        }
        assert(frames@.take(frames@.len() as int) =~= frames@);
    }
}

/// The bytes of a group are those of its frames together.
pub proof fn the_bytes_of_a_group_add_up(frames: Seq<Vec<u8>>, frame: Vec<u8>)
    ensures
        plain_bytes(Seq::<Vec<u8>>::empty()) == 0,
        plain_bytes(frames.push(frame)) == plain_bytes(frames) + frame@.len(),
{
    assert(frames.push(frame).drop_last() =~= frames);
}

} // verus!
