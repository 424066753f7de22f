//! Replacing the session keys while frames are in flight.

use crate::session::cipher::{CipherError, SessionCipher};
use crate::session::frame::{aad_of, frame_aad};
use crate::time::{Duration, Instant, NANOS_PER_SEC};
use vstd::prelude::*;

verus! {

/// How many retired receive ciphers are kept at most.
pub const REKEY_RX_PREV_CAP: usize = 16;

/// How long a retired receive cipher is kept.
pub const REKEY_RX_GRACE_SECS: u64 = 30;

/// How long an unanswered rekey blocks the next one.
pub const REKEY_ACK_TIMEOUT_SECS: u64 = 60;

/// From this frame number on a direction is rekeyed before its counter ends.
pub const NONCE_REKEY_WATERMARK: u64 = 0x4000_0000_0000_0000;

/// What a session should do after handling a frame.
#[derive(Clone, Copy, Debug, PartialEq, Eq, Structural)]
pub enum ArmOutcome {
    /// Go on.
    Continue,
    /// End the session.
    Close,
    /// A write was refused: count the failure and end the session.
    WriteFailed,
}

/// The keys of both directions and the session's identifier.
#[derive(Clone, Copy, Debug)]
pub struct SessionKeys {
    pub tx_key: [u8; 32],
    pub rx_key: [u8; 32],
    pub session_id: [u8; 32],
}

/// The ciphers of both directions, absent while a session is not encrypted.
#[derive(Debug)]
pub struct CryptoState {
    pub tx_cipher: Option<SessionCipher>,
    pub rx_cipher: Option<SessionCipher>,
}

/// Thresholds at which a session is rekeyed.
#[derive(Clone, Copy, Debug, PartialEq, Eq, Structural)]
pub struct RekeyConfig {
    pub bytes_threshold: u64,
    pub time_threshold_secs: u64,
}

/// Why a rekey is due.
#[derive(Clone, Copy, Debug, PartialEq, Eq, Structural)]
pub enum RekeyTrigger {
    Bytes,
    Time,
    NonceWatermark,
}

/// A rekey that was started here: the key pair and when it was sent.
pub struct PendingInit<K> {
    pub keypair: K,
    pub sent_at: Instant,
}

/// Where a session stands with its own rekeys.
pub struct RekeyContext<K> {
    pub config: RekeyConfig,
    pub bytes_since_rekey: u64,
    pub last_rekey_at: Instant,
    pub pending: Option<PendingInit<K>>,
    pub generation: u64,
}

/// `a + b`, or the largest countable number.
pub open spec fn saturating(a: int, b: int) -> u64 {
    if a + b > u64::MAX {
        u64::MAX
    } else {
        (a + b) as u64
    }
}

impl<K> RekeyContext<K> {
    /// A session that starts at `now`.
    pub fn new(config: RekeyConfig, now: Instant) -> (c: RekeyContext<K>)
        ensures
            c == (RekeyContext::<K> {
                config,
                bytes_since_rekey: 0,
                last_rekey_at: now,
                pending: None,
                generation: 0,
            }),
    {
        RekeyContext { config, bytes_since_rekey: 0, last_rekey_at: now, pending: None, generation: 0 }
    }

    /// Whether a rekey that was started here waits for its answer.
    pub fn is_awaiting_ack(&self) -> (b: bool)
        ensures
            b == (self.pending is Some),
    {
        self.pending.is_some()
    }

    /// Gives up on a rekey that was started here.
    pub fn reset_to_idle(&mut self)
        ensures
            *final(self) == (RekeyContext::<K> { pending: None, ..*old(self) }),
    {
        self.pending = None;
    }

    /// The state after `n` more bytes went over the wire.
    pub open spec fn counted(self, n: int) -> RekeyContext<K> {
        RekeyContext {
            bytes_since_rekey: saturating(self.bytes_since_rekey as int, n),
            ..self
        }
    }

    /// Counts bytes that went over the wire.
    pub fn record_bytes(&mut self, n: u64)
        ensures
            *final(self) == old(self).counted(n as int),
    {
        self.bytes_since_rekey = self.bytes_since_rekey.saturating_add(n);
    }

    /// Starts counting anew under the next generation of keys.
    pub fn record_rekey_complete(&mut self, now: Instant)
        ensures
            *final(self) == old(self).completed(now),
    {
        self.bytes_since_rekey = 0;
        self.last_rekey_at = now;
        self.pending = None;
        self.generation = self.generation.saturating_add(1);
    }

    /// The state after the keys were replaced at `now`.
    pub open spec fn completed(self, now: Instant) -> RekeyContext<K> {
        RekeyContext {
            config: self.config,
            bytes_since_rekey: 0,
            last_rekey_at: now,
            pending: None,
            generation: saturating(self.generation as int, 1),
        }
    }

    /// Why a rekey is due at `now`: the bytes, else the time, else the counter.
    pub open spec fn due(self, now: Instant, nonce_pressure: bool) -> Option<RekeyTrigger> {
        if self.bytes_since_rekey >= self.config.bytes_threshold {
            Some(RekeyTrigger::Bytes)
        } else if now@ >= self.last_rekey_at@ + self.config.time_threshold_secs * NANOS_PER_SEC {
            Some(RekeyTrigger::Time)
        } else if nonce_pressure {
            Some(RekeyTrigger::NonceWatermark)
        } else {
            None
        }
    }

    /// Why a rekey is due at `now`.
    pub fn should_initiate_rekey(&self, now: Instant, nonce_pressure: bool) -> (r: Option<
        RekeyTrigger,
    >)
        ensures
            r == self.due(now, nonce_pressure),
    {
        if self.bytes_since_rekey >= self.config.bytes_threshold {
            Some(RekeyTrigger::Bytes)
        } else if now.reached(
            self.last_rekey_at,
            Duration::from_secs(self.config.time_threshold_secs),
        ) {
            Some(RekeyTrigger::Time)
        } else if nonce_pressure {
            Some(RekeyTrigger::NonceWatermark)
        } else {
            None
        }
    }

    /// Whether a rekey that was started here has waited too long at `now`.
    pub open spec fn timed_out(self, now: Instant) -> bool {
        self.pending is Some && now@ >= self.pending->0.sent_at@ + REKEY_ACK_TIMEOUT_SECS
            * NANOS_PER_SEC
    }

    /// Gives up on a rekey that has waited too long.
    pub fn expire_pending(&mut self, now: Instant) -> (expired: bool)
        ensures
            expired == old(self).timed_out(now),
            *final(self) == if old(self).timed_out(now) {
                RekeyContext::<K> { pending: None, ..*old(self) }
            } else {
                *old(self)
            },
    {
        let expired: bool = match &self.pending {
            Some(p) => now.reached(p.sent_at, Duration::from_secs(REKEY_ACK_TIMEOUT_SECS)),
            None => false,
        };
        if expired {
            self.pending = None;
        }
        expired
    }
}

/// A receive cipher that was replaced, and when.
#[derive(Debug)]
pub struct GraceEntry {
    pub cipher: SessionCipher,
    pub retired_at: Instant,
}

/// The receive ciphers that were replaced lately, oldest first.
#[derive(Debug)]
pub struct RekeyRxGraceBuffer {
    pub entries: Vec<GraceEntry>,
}

/// What a retired cipher made of a body.
#[derive(Debug)]
pub struct GraceHit {
    pub plaintext: Vec<u8>,
    pub slot_from_newest: usize,
}

/// Whether a retired cipher is still kept at `now`.
pub open spec fn in_grace(e: GraceEntry, now: Instant) -> bool {
    now@ < e.retired_at@ + REKEY_RX_GRACE_SECS * NANOS_PER_SEC
}

/// The retired ciphers that are still kept at `now`, in their order.
pub open spec fn kept(entries: Seq<GraceEntry>, now: Instant) -> Seq<GraceEntry>
    decreases entries.len(),
{
    if entries.len() == 0 {
        Seq::empty()
    } else if in_grace(entries.last(), now) {
        kept(entries.drop_last(), now).push(entries.last())
    } else {
        kept(entries.drop_last(), now)
    }
}

/// Whether a retired cipher opens a body.
pub open spec fn entry_opens(e: GraceEntry, sealed: Seq<u8>, aad: Seq<u8>) -> bool {
    e.cipher.frames() < u64::MAX && e.cipher.opens_to(sealed, aad) is Some
}

/// The newest of the retired ciphers that opens a body.
pub open spec fn newest_opening(entries: Seq<GraceEntry>, sealed: Seq<u8>, aad: Seq<u8>) -> Option<
    int,
>
    decreases entries.len(),
{
    if entries.len() == 0 {
        None
    } else if entry_opens(entries.last(), sealed, aad) {
        Some(entries.len() - 1)
    } else {
        newest_opening(entries.drop_last(), sealed, aad)
    }
}

/// The entries after the one at `i` handled a frame.
pub open spec fn entry_used(before: Seq<GraceEntry>, after: Seq<GraceEntry>, i: int) -> bool {
    &&& after.len() == before.len()
    &&& forall|j: int| 0 <= j < before.len() && j != i ==> #[trigger] after[j] == before[j]
    &&& before[i].cipher.advanced_to(after[i].cipher)
    &&& after[i].retired_at == before[i].retired_at
}

impl RekeyRxGraceBuffer {
    /// A buffer without retired ciphers.
    pub fn new() -> (b: RekeyRxGraceBuffer)
        ensures
            b.entries@ == Seq::<GraceEntry>::empty(),
    {
        RekeyRxGraceBuffer { entries: Vec::new() }
    }

    /// The entries after `cipher` was retired at `now`: the oldest leaves when
    /// there would be too many.
    pub open spec fn pushed(
        before: Seq<GraceEntry>,
        cipher: SessionCipher,
        now: Instant,
    ) -> Seq<GraceEntry> {
        let entry = GraceEntry { cipher, retired_at: now };
        if before.len() >= REKEY_RX_PREV_CAP {
            before.remove(0).push(entry)
        } else {
            before.push(entry)
        }
    }

    /// Retires a cipher, and says whether an older one had to leave for it.
    pub fn push(&mut self, cipher: SessionCipher, now: Instant) -> (evicted: bool)
        ensures
            final(self).entries@ == Self::pushed(old(self).entries@, cipher, now),
            evicted == (old(self).entries@.len() >= REKEY_RX_PREV_CAP),
            old(self).entries@.len() <= REKEY_RX_PREV_CAP ==> final(self).entries@.len()
                <= REKEY_RX_PREV_CAP,
    {
        let evicted: bool = self.entries.len() >= REKEY_RX_PREV_CAP;
        if evicted {
            let _ = self.entries.remove(0);
        }
        self.entries.push(GraceEntry { cipher, retired_at: now });
        evicted
    }

    /// Drops the ciphers whose grace is over.
    pub fn prune_expired(&mut self, now: Instant)
        ensures
            final(self).entries@ == kept(old(self).entries@, now),
            final(self).entries@.len() <= old(self).entries@.len(),
    {
        let grace: Duration = Duration::from_secs(REKEY_RX_GRACE_SECS);
        let ghost before = self.entries@;
        let mut all: Vec<GraceEntry> = Vec::new();
        std::mem::swap(&mut all, &mut self.entries);
        let ghost mut done: int = 0;
        proof {
            assert(before.skip(0) =~= before);
            assert(before.take(0) =~= Seq::<GraceEntry>::empty());
        }
        while all.len() > 0
            invariant
                0 <= done <= before.len(),
                all@ == before.skip(done),
                self.entries@ == kept(before.take(done), now),
                self.entries@.len() <= done,
                grace@ == REKEY_RX_GRACE_SECS * NANOS_PER_SEC,
            decreases all@.len(),
        {
            let e: GraceEntry = all.remove(0);
            proof {
                assert(before.skip(done).remove(0) =~= before.skip(done + 1));
                assert(before.take(done + 1).drop_last() =~= before.take(done));
                assert(before.take(done + 1).last() == e);
                done = done + 1;
            }
            if !now.reached(e.retired_at, grace) {
                self.entries.push(e);
            }
        }
        assert(before.take(done) =~= before);
    }

    /// Tries the retired ciphers on a body, newest first. Only a cipher that
    /// opens it moves on to its next frame.
    pub fn try_open(&mut self, sealed: &[u8], aad: &[u8]) -> (r: Option<GraceHit>)
        ensures
            match newest_opening(old(self).entries@, sealed@, aad@) {
                None => r is None && final(self).entries@ == old(self).entries@,
                Some(i) => {
                    &&& 0 <= i < old(self).entries@.len()
                    &&& r matches Some(hit) && Some(hit.plaintext@)
                        == old(self).entries@[i].cipher.opens_to(sealed@, aad@)
                        && hit.slot_from_newest == old(self).entries@.len() - 1 - i
                    &&& entry_used(old(self).entries@, final(self).entries@, i)
                },
            },
    {
        let ghost before = self.entries@;
        let n: usize = self.entries.len();
        let mut left: usize = n;
        assert(before.take(n as int) =~= before);
        while left > 0
            invariant
                0 <= left <= n,
                n == before.len(),
                before == old(self).entries@,
                self.entries@ == before,
                newest_opening(before, sealed@, aad@) == newest_opening(
                    before.take(left as int),
                    sealed@,
                    aad@,
                ),
            decreases left,
        {
            let i: usize = left - 1;
            proof {
                assert(before.take(left as int).drop_last() =~= before.take(i as int));
                assert(before.take(left as int).last() == before[i as int]);
            }
            match self.entries[i].cipher.open(sealed, aad) {
                Ok(plaintext) => {
                    return Some(GraceHit { plaintext, slot_from_newest: n - 1 - i });
                },
                Err(_) => {
                    assert(self.entries@ =~= before);
                },
            }
            left = i;
        }
        None
    }
}

/// How a body was turned into plaintext.
#[derive(Debug)]
pub enum DecryptInPlaceOutcome {
    /// There is no cipher: the body is the plaintext.
    Passthrough,
    /// The body was opened and replaced by the plaintext.
    InPlace,
    /// A retired cipher opened the body.
    GracePlaintext(Vec<u8>),
}

/// Why a body ends the session.
#[derive(Clone, Copy, Debug, PartialEq, Eq, Structural)]
pub enum DecryptFailure {
    /// A body without a tag came while a cipher is in use.
    Unauthenticated,
    /// The receive counter is used up.
    NonceOverflow,
    /// No cipher opens the body: a violation of the protocol.
    Violation,
}

impl CryptoState {
    /// Whether the result of decrypting `raw` is the one that is due, with the
    /// ciphers and retired ciphers that it leaves behind.
    pub open spec fn decrypted(
        self,
        raw: Seq<u8>,
        aad: Seq<u8>,
        grace: Seq<GraceEntry>,
        now: Instant,
        r: Result<DecryptInPlaceOutcome, DecryptFailure>,
        raw_after: Seq<u8>,
        after: CryptoState,
        grace_after: Seq<GraceEntry>,
    ) -> bool {
        &&& after.tx_cipher == self.tx_cipher
        &&& match self.rx_cipher {
            None => {
                &&& r == Ok::<DecryptInPlaceOutcome, DecryptFailure>(
                    DecryptInPlaceOutcome::Passthrough,
                )
                &&& raw_after == raw
                &&& after == self
                &&& grace_after == grace
            },
            Some(c) => if raw.len() == 0 {
                &&& r == Err::<DecryptInPlaceOutcome, DecryptFailure>(
                    DecryptFailure::Unauthenticated,
                )
                &&& after == self
                &&& grace_after == grace
            } else if c.frames() == u64::MAX {
                &&& r == Err::<DecryptInPlaceOutcome, DecryptFailure>(DecryptFailure::NonceOverflow)
                &&& after == self
                &&& grace_after == kept(grace, now)
            } else {
                match c.opens_to(raw, aad) {
                    Some(plaintext) => {
                        &&& r == Ok::<DecryptInPlaceOutcome, DecryptFailure>(
                            DecryptInPlaceOutcome::InPlace,
                        )
                        &&& raw_after == plaintext
                        &&& after.rx_cipher is Some
                        &&& c.advanced_to(after.rx_cipher->0)
                        &&& grace_after == kept(grace, now)
                    },
                    None => {
                        &&& after == self
                        &&& match newest_opening(kept(grace, now), raw, aad) {
                            Some(i) => {
                                &&& r matches Ok(DecryptInPlaceOutcome::GracePlaintext(p)) && Some(
                                    p@,
                                ) == kept(grace, now)[i].cipher.opens_to(raw, aad)
                                &&& entry_used(kept(grace, now), grace_after, i)
                            },
                            None => {
                                &&& r == Err::<DecryptInPlaceOutcome, DecryptFailure>(
                                    DecryptFailure::Violation,
                                )
                                &&& grace_after == kept(grace, now)
                            },
                        }
                    },
                }
            },
        }
    }

    /// Opens a body that was just read. While a cipher is in use a body without
    /// a tag is refused. A body that the current cipher does not open is tried
    /// on the ciphers retired lately; if none of them opens it either, the peer
    /// has violated the protocol.
    pub fn decrypt_frame_body_in_place(
        &mut self,
        raw_body: &mut Vec<u8>,
        family: u8,
        msg_type: u16,
        grace: &mut RekeyRxGraceBuffer,
        now: Instant,
    ) -> (r: Result<DecryptInPlaceOutcome, DecryptFailure>)
        ensures
            old(self).decrypted(
                old(raw_body)@,
                aad_of(family, msg_type),
                old(grace).entries@,
                now,
                r,
                final(raw_body)@,
                *final(self),
                final(grace).entries@,
            ),
    {
        let aad: Vec<u8> = frame_aad(family, msg_type);
        match &mut self.rx_cipher {
            None => Ok(DecryptInPlaceOutcome::Passthrough),
            Some(cipher) => {
                if raw_body.len() == 0 {
                    return Err(DecryptFailure::Unauthenticated);
                }
                grace.prune_expired(now);
                match cipher.open(raw_body.as_slice(), aad.as_slice()) {
                    Ok(plaintext) => {
                        *raw_body = plaintext;
                        Ok(DecryptInPlaceOutcome::InPlace)
                    },
                    Err(CipherError::NonceOverflow) => Err(DecryptFailure::NonceOverflow),
                    Err(CipherError::Rejected) => {
                        match grace.try_open(raw_body.as_slice(), aad.as_slice()) {
                            Some(hit) => Ok(DecryptInPlaceOutcome::GracePlaintext(hit.plaintext)),
                            None => Err(DecryptFailure::Violation),
                        }
                    },
                }
            },
        }
    }
}

/// A rekey is due exactly when so many bytes went over the wire as the threshold says,
/// when so many seconds have passed since the last one, however many there were
/// before, or when a counter nears its end. The reason is the first of these that
/// holds.
pub proof fn thresholds_decide_on_a_rekey<K>(
    c: &RekeyContext<K>,
    now: Instant,
    nonce_pressure: bool,
    r: Option<RekeyTrigger>,
)
    requires
        call_ensures(RekeyContext::<K>::should_initiate_rekey, (c, now, nonce_pressure), r),
    ensures
        ({
            let bytes = c.bytes_since_rekey >= c.config.bytes_threshold;
            let time = now@ >= c.last_rekey_at@ + c.config.time_threshold_secs * 1_000_000_000;
            &&& r is Some <==> bytes || time || nonce_pressure
            &&& r == Some(RekeyTrigger::Bytes) <==> bytes
            &&& r == Some(RekeyTrigger::Time) <==> !bytes && time
            &&& r == Some(RekeyTrigger::NonceWatermark) <==> !bytes && !time && nonce_pressure
        }),
{
}

/// Keys are replaced again and again: after each replacement the bytes are counted from
/// nothing and the time from that moment, and the next one is due as soon as either
/// threshold is reached, and no sooner.
pub proof fn every_rekey_is_followed_by_another<K>(
    done: &mut RekeyContext<K>,
    counted: &mut RekeyContext<K>,
    at: Instant,
    n: u64,
    now: Instant,
    r: Option<RekeyTrigger>,
)
    requires
        call_ensures(RekeyContext::<K>::record_rekey_complete, (done, at), ()),
        *old(counted) == *final(done),
        call_ensures(RekeyContext::<K>::record_bytes, (counted, n), ()),
        call_ensures(RekeyContext::<K>::should_initiate_rekey, (&*final(counted), now, false), r),
    ensures
        r is Some <==> n >= old(done).config.bytes_threshold || now@ >= at@ + old(done).config.time_threshold_secs * 1_000_000_000,
        final(done).pending is None,
        final(done).config == old(done).config,
        final(done).bytes_since_rekey == 0,
        final(done).last_rekey_at == at,
        old(done).generation < u64::MAX ==> final(done).generation == old(done).generation + 1,
        final(counted).pending == final(done).pending,
        final(counted).generation == final(done).generation,
{
}

/// Bytes add up: counting two amounts is counting their sum, until no more can be
/// counted, and nothing else changes.
pub proof fn counted_bytes_add_up<K>(
    first: &mut RekeyContext<K>,
    second: &mut RekeyContext<K>,
    n: u64,
    m: u64,
)
    requires
        call_ensures(RekeyContext::<K>::record_bytes, (first, n), ()),
        *old(second) == *final(first),
        call_ensures(RekeyContext::<K>::record_bytes, (second, m), ()),
    ensures
        ({
            let sum = old(first).bytes_since_rekey + n + m;
            &&& final(second).bytes_since_rekey == if sum <= u64::MAX {
                sum
            } else {
                u64::MAX as int
            }
            &&& final(second).last_rekey_at == old(first).last_rekey_at
            &&& final(second).pending == old(first).pending
            &&& final(second).config == old(first).config
            &&& final(second).generation == old(first).generation
        }),
{
}

/// A rekey that was started here is waited for during a minute and is then given up,
/// whatever else happened; one that does not wait is not given up.
pub proof fn an_unanswered_rekey_is_given_up<K>(
    c: &mut RekeyContext<K>,
    now: Instant,
    expired: bool,
)
    requires
        call_ensures(RekeyContext::<K>::expire_pending, (c, now), expired),
    ensures
        expired <==> old(c).pending is Some && now@ >= old(c).pending->0.sent_at@ + 60
            * 1_000_000_000,
        expired ==> final(c).pending is None,
        !expired ==> final(c).pending == old(c).pending,
        final(c).bytes_since_rekey == old(c).bytes_since_rekey,
        final(c).last_rekey_at == old(c).last_rekey_at,
        final(c).config == old(c).config,
        final(c).generation == old(c).generation,
{
}

pub(crate) proof fn lemma_kept(entries: Seq<GraceEntry>, now: Instant)
    ensures
        forall|e: GraceEntry| #[trigger]
            kept(entries, now).contains(e) <==> entries.contains(e) && now@ < e.retired_at@ + 30
                * 1_000_000_000,
        kept(entries, now).len() <= entries.len(),
    decreases entries.len(),
{
    if entries.len() > 0 {
        let rest = entries.drop_last();
        lemma_kept(rest, now);
        assert forall|e: GraceEntry| #[trigger]
            kept(entries, now).contains(e) <==> entries.contains(e) && now@ < e.retired_at@ + 30
                * 1_000_000_000 by {
            let k = kept(rest, now);
            if entries.contains(e) && e != entries.last() {
                let i = choose|i: int| 0 <= i < entries.len() && entries[i] == e;
                assert(rest[i] == e);
            }
            if rest.contains(e) {
                let i = choose|i: int| 0 <= i < rest.len() && rest[i] == e;
                assert(entries[i] == e);
            }
            assert(entries[entries.len() - 1] == entries.last());
            assert(k.push(entries.last())[k.len() as int] == entries.last());
            if k.contains(e) {
                let i = choose|i: int| 0 <= i < k.len() && k[i] == e;
                assert(k.push(entries.last())[i] == e);
            }
        }
    }
}

pub(crate) proof fn lemma_newest_opening(entries: Seq<GraceEntry>, sealed: Seq<u8>, aad: Seq<u8>)
    ensures
        match newest_opening(entries, sealed, aad) {
            Some(i) => {
                &&& 0 <= i < entries.len()
                &&& entries[i].cipher.frames() < u64::MAX
                &&& entries[i].cipher.opens_to(sealed, aad) is Some
                &&& forall|j: int|
                    i < j < entries.len() ==> (#[trigger] entries[j]).cipher.frames() == u64::MAX
                        || entries[j].cipher.opens_to(sealed, aad) is None
            },
            None => forall|j: int|
                0 <= j < entries.len() ==> (#[trigger] entries[j]).cipher.frames() == u64::MAX
                    || entries[j].cipher.opens_to(sealed, aad) is None,
        },
    decreases entries.len(),
{
    if entries.len() > 0 && !entry_opens(entries.last(), sealed, aad) {
        lemma_newest_opening(entries.drop_last(), sealed, aad);
        assert forall|j: int|
            0 <= j < entries.len() && (newest_opening(entries, sealed, aad) is Some ==> j
                > newest_opening(entries, sealed, aad)->0) implies (
        #[trigger] entries[j]).cipher.frames() == u64::MAX || entries[j].cipher.opens_to(
            sealed,
            aad,
        ) is None by {
            if j < entries.len() - 1 {
                assert(entries.drop_last()[j] == entries[j]);
            }
        }
    }
}

/// A cipher that was replaced is kept for half a minute, and not a moment longer.
pub proof fn grace_lasts_half_a_minute(b: &mut RekeyRxGraceBuffer, now: Instant, e: GraceEntry)
    requires
        call_ensures(RekeyRxGraceBuffer::prune_expired, (b, now), ()),
        old(b).entries@.contains(e),
    ensures
        final(b).entries@.contains(e) <==> now@ < e.retired_at@ + 30 * 1_000_000_000,
        forall|x: GraceEntry| #[trigger]
            final(b).entries@.contains(x) ==> old(b).entries@.contains(x),
{
    lemma_kept(old(b).entries@, now);
}

/// A cipher that is retired is kept as it is, as the newest. The others stay in their
/// order, but for the oldest where there are sixteen already.
pub proof fn a_retired_cipher_is_kept(
    b: &mut RekeyRxGraceBuffer,
    cipher: SessionCipher,
    now: Instant,
    evicted: bool,
    i: int,
)
    requires
        call_ensures(RekeyRxGraceBuffer::push, (b, cipher, now), evicted),
        0 <= i < old(b).entries@.len(),
    ensures
        final(b).entries@.last() == (GraceEntry { cipher, retired_at: now }),
        evicted <==> old(b).entries@.len() >= 16,
        !evicted ==> final(b).entries@.len() == old(b).entries@.len() + 1 && final(b).entries@[i]
            == old(b).entries@[i],
        evicted ==> final(b).entries@.len() == old(b).entries@.len() && (i > 0 ==> final(b).entries@[i - 1] == old(b).entries@[i]),
{
}

/// Of the retired ciphers the newest that opens a body is the one that does, and only it
/// moves on to its next frame; where none opens it, none moves.
pub proof fn the_newest_cipher_opens(
    b: &mut RekeyRxGraceBuffer,
    sealed: &[u8],
    aad: &[u8],
    r: Option<GraceHit>,
    i: int,
)
    requires
        call_ensures(RekeyRxGraceBuffer::try_open, (b, sealed, aad), r),
        0 <= i < old(b).entries@.len(),
    ensures
        ({
            let before = old(b).entries@;
            let after = final(b).entries@;
            let opens = before[i].cipher.frames() < u64::MAX && before[i].cipher.opens_to(
                sealed@,
                aad@,
            ) is Some;
            let at = before.len() - 1 - r->0.slot_from_newest;
            &&& after.len() == before.len()
            &&& r is None ==> !opens && after == before
            &&& opens ==> r is Some && at >= i
            &&& r is Some && at == i ==> opens && Some(r->0.plaintext@)
                == before[i].cipher.opens_to(sealed@, aad@) && after[i].cipher.key()
                == before[i].cipher.key() && after[i].cipher.frames() == before[i].cipher.frames()
                + 1 && after[i].retired_at == before[i].retired_at
            &&& r is Some && at != i ==> after[i] == before[i]
        }),
{
    lemma_newest_opening(old(b).entries@, sealed@, aad@);
}

/// What becomes of a body. Without a cipher it is the plaintext. With one, an empty body
/// is refused, and one that the cipher opens becomes what it opens to, once: the
/// cipher moves on by one frame. What it does not open is opened by one of the ciphers
/// that were replaced in the last half minute, or is a violation, and the cipher stays
/// where it is.
pub proof fn bodies_open_once(
    c: &mut CryptoState,
    raw: &mut Vec<u8>,
    family: u8,
    msg_type: u16,
    grace: &mut RekeyRxGraceBuffer,
    now: Instant,
    r: Result<DecryptInPlaceOutcome, DecryptFailure>,
    e: GraceEntry,
)
    requires
        call_ensures(
            CryptoState::decrypt_frame_body_in_place,
            (c, raw, family, msg_type, grace, now),
            r,
        ),
        old(grace).entries@.contains(e),
    ensures
        ({
            let aad = seq![family] + crate::bytes::be16(msg_type);
            let cipher = old(c).rx_cipher->0;
            let sealed = old(raw)@;
            &&& final(c).tx_cipher == old(c).tx_cipher
            &&& old(c).rx_cipher is None ==> r is Ok && r->Ok_0 is Passthrough && final(raw)@
                == sealed && *final(c) == *old(c)
            &&& old(c).rx_cipher is Some && sealed.len() == 0 ==> r is Err && r->Err_0
                == DecryptFailure::Unauthenticated && *final(c) == *old(c)
            &&& old(c).rx_cipher is Some && sealed.len() > 0 && cipher.frames() == u64::MAX
                ==> r is Err && r->Err_0 == DecryptFailure::NonceOverflow && *final(c) == *old(c)
            &&& old(c).rx_cipher is Some && sealed.len() > 0 && cipher.frames() < u64::MAX
                && cipher.opens_to(sealed, aad) is Some ==> r is Ok && r->Ok_0 is InPlace && Some(
                final(raw)@,
            ) == cipher.opens_to(sealed, aad) && final(c).rx_cipher is Some && final(c).rx_cipher->0.key() == cipher.key() && final(c).rx_cipher->0.frames()
                == cipher.frames() + 1
            &&& old(c).rx_cipher is Some && sealed.len() > 0 && cipher.frames() < u64::MAX
                && cipher.opens_to(sealed, aad) is None ==> {
                &&& *final(c) == *old(c)
                &&& r is Ok ==> r->Ok_0 is GracePlaintext
                &&& r is Err ==> r->Err_0 == DecryptFailure::Violation
                &&& now@ < e.retired_at@ + 30 * 1_000_000_000 && e.cipher.frames() < u64::MAX
                    && e.cipher.opens_to(sealed, aad) is Some ==> r is Ok
                &&& r is Ok ==> exists|x: GraceEntry| #[trigger]
                    old(grace).entries@.contains(x) && now@ < x.retired_at@ + 30 * 1_000_000_000
                        && Some(r->Ok_0->GracePlaintext_0@) == x.cipher.opens_to(sealed, aad)
            }
        }),
{
    let aad = seq![family] + crate::bytes::be16(msg_type);
    let k = kept(old(grace).entries@, now);
    lemma_kept(old(grace).entries@, now);
    lemma_newest_opening(k, old(raw)@, aad);
    assert(aad == aad_of(family, msg_type));
    match newest_opening(k, old(raw)@, aad) {
        Some(i) => {
            assert(k.contains(k[i]));
        },
        None => {
            if k.contains(e) {
                let j = choose|j: int| 0 <= j < k.len() && k[j] == e;
                assert(k[j].cipher.frames() == u64::MAX || k[j].cipher.opens_to(
                    old(raw)@,
                    aad,
                ) is None);
            }
        },
    }
}

/// Opening a body with the current cipher, or finding that no cipher opens it, leaves the
/// ciphers that were replaced in the last half minute as they are and drops the others.
pub proof fn replaced_ciphers_wait_unchanged(
    c: &mut CryptoState,
    raw: &mut Vec<u8>,
    family: u8,
    msg_type: u16,
    grace: &mut RekeyRxGraceBuffer,
    now: Instant,
    r: Result<DecryptInPlaceOutcome, DecryptFailure>,
    e: GraceEntry,
)
    requires
        call_ensures(
            CryptoState::decrypt_frame_body_in_place,
            (c, raw, family, msg_type, grace, now),
            r,
        ),
        old(c).rx_cipher is Some,
        old(c).rx_cipher->0.frames() < u64::MAX,
        old(raw)@.len() > 0,
        r is Err || r->Ok_0 is InPlace,
    ensures
        final(grace).entries@.contains(e) <==> old(grace).entries@.contains(e) && now@
            < e.retired_at@ + 30 * 1_000_000_000,
{
    lemma_kept(old(grace).entries@, now);
}

} // verus!
