//! The messages that replace the session keys.

use crate::bytes::{all_zero, array32_at, bytes_less, lemma_lex_less_total, lex_less, zeros};
use crate::session::cipher::SessionCipher;
use crate::session::frame::{apply_tx_cipher, build_frame, plain_frame, wire_of, HEADER_SIZE};
use crate::session::messages::{FrameFamily, SessionMsg};
use crate::session::rekey::{
    in_grace, kept, newest_opening, ArmOutcome, CryptoState, DecryptFailure, DecryptInPlaceOutcome,
    GraceEntry, PendingInit, RekeyContext, RekeyRxGraceBuffer, RekeyTrigger, SessionKeys,
    NONCE_REKEY_WATERMARK, REKEY_RX_GRACE_SECS, REKEY_RX_PREV_CAP,
};
use crate::session::tx_registry::INTERACTIVE;
use crate::session::wire::WireOutbox;
use crate::time::{Instant, NANOS_PER_SEC};
use vstd::prelude::*;

verus! {

/// The outcome of a key exchange with the peer: our public key, and the new keys
/// unless the peer's key contributed nothing.
#[derive(Clone, Copy, Debug)]
pub struct RekeyExchange {
    pub our_pubkey: [u8; 32],
    pub keys: Option<SessionKeys>,
}

/// The plaintext frame of a session message.
pub open spec fn session_frame(msg: SessionMsg, body: Seq<u8>) -> Seq<u8> {
    plain_frame(FrameFamily::Session.code_spec(), msg.code_spec(), body)
}

/// Builds the plaintext frame of a session message.
pub fn build_session_frame(msg: SessionMsg, body: &[u8]) -> (v: Vec<u8>)
    requires
        body@.len() <= u32::MAX,
    ensures
        v@ == session_frame(msg, body@),
        v@.len() == HEADER_SIZE + body@.len(),
{
    build_frame(FrameFamily::Session.code(), msg.code(), body)
}

/// When both sides started a rekey at once, the one with the smaller identifier
/// keeps its own and the other one gives up.
pub open spec fn keeps_own_init(local: Seq<u8>, peer: Seq<u8>) -> bool {
    lex_less(local, peer)
}

/// Of two different nodes that started a rekey at once exactly one keeps it.
pub proof fn collision_has_one_winner(a: Seq<u8>, b: Seq<u8>)
    requires
        a != b,
    ensures
        keeps_own_init(a, b) <==> !keeps_own_init(b, a),
{
    lemma_lex_less_total(a, b);
}

impl CryptoState {
    /// Whether both directions are encrypted.
    pub open spec fn is_full(self) -> bool {
        self.tx_cipher is Some && self.rx_cipher is Some
    }

    /// Whether both directions use the given keys and have handled no frame.
    pub open spec fn runs_fresh(self, keys: SessionKeys) -> bool {
        &&& self.is_full()
        &&& self.tx_cipher->0.key() == keys.tx_key@
        &&& self.tx_cipher->0.frames() == 0
        &&& self.rx_cipher->0.key() == keys.rx_key@
        &&& self.rx_cipher->0.frames() == 0
    }

    /// The retired ciphers after the keys were replaced at `now`.
    pub open spec fn retired(self, grace: Seq<GraceEntry>, now: Instant) -> Seq<GraceEntry> {
        match self.rx_cipher {
            Some(c) => RekeyRxGraceBuffer::pushed(grace, c, now),
            None => grace,
        }
    }

    /// Replaces the keys. The receive cipher so far is retired, not dropped, so
    /// that frames in flight can still be read. Says whether the oldest retired
    /// cipher had to make room.
    pub fn switch_keys<K>(
        &mut self,
        session_id: &mut [u8; 32],
        rekey: &mut RekeyContext<K>,
        grace: &mut RekeyRxGraceBuffer,
        keys: &SessionKeys,
        now: Instant,
    ) -> (evicted: bool)
        ensures
            final(self).runs_fresh(*keys),
            *final(session_id) == keys.session_id,
            *final(rekey) == old(rekey).completed(now),
            final(grace).entries@ == old(self).retired(old(grace).entries@, now),
            evicted == (old(self).rx_cipher is Some && old(grace).entries@.len()
                >= REKEY_RX_PREV_CAP),
    {
        let mut evicted: bool = false;
        match self.rx_cipher.take() {
            Some(c) => {
                evicted = grace.push(c, now);
            },
            None => {},
        }
        self.tx_cipher = Some(SessionCipher::new(&keys.tx_key));
        self.rx_cipher = Some(SessionCipher::new(&keys.rx_key));
        *session_id = keys.session_id;
        rekey.record_rekey_complete(now);
        evicted
    }

    /// What a session message becomes on the wire next.
    pub open spec fn sends(self, msg: SessionMsg, body: Seq<u8>) -> Option<Seq<u8>> {
        match self.tx_cipher {
            Some(c) => wire_of(session_frame(msg, body), c.key(), c.frames()),
            None => Some(session_frame(msg, body)),
        }
    }

    /// Prepares a session message for the wire: sealed when the session is
    /// encrypted, else as it is.
    pub fn prepare(&mut self, msg: SessionMsg, body: &[u8]) -> (r: Option<Vec<u8>>)
        requires
            body@.len() <= u32::MAX,
        ensures
            r is Some == old(self).sends(msg, body@) is Some,
            r matches Some(w) ==> old(self).sends(msg, body@) == Some(w@),
            final(self).rx_cipher == old(self).rx_cipher,
            final(self).tx_cipher is Some == old(self).tx_cipher is Some,
            r is None || old(self).tx_cipher is None ==> *final(self) == *old(self),
            r is Some && old(self).tx_cipher is Some ==> old(self).tx_cipher->0.advanced_to(
                final(self).tx_cipher->0,
            ),
    {
        let frame: Vec<u8> = build_session_frame(msg, body);
        match &mut self.tx_cipher {
            Some(c) => apply_tx_cipher(frame.as_slice(), c),
            None => Some(frame),
        }
    }
}

/// Two ends that replaced their keys by mirrored ones are in step in both
/// directions.
pub proof fn mirrored_keys_are_in_step(
    a: CryptoState,
    b: CryptoState,
    ka: SessionKeys,
    kb: SessionKeys,
)
    requires
        a.runs_fresh(ka),
        b.runs_fresh(kb),
        ka.tx_key@ == kb.rx_key@,
        ka.rx_key@ == kb.tx_key@,
    ensures
        a.tx_cipher->0.in_step_with(b.rx_cipher->0),
        b.tx_cipher->0.in_step_with(a.rx_cipher->0),
{
}

/// A frame that the peer sealed before it learned of the new keys is still read
/// while the grace lasts, when the new cipher does not open it by chance.
pub proof fn frame_in_flight_is_still_read(
    before: CryptoState,
    grace: Seq<GraceEntry>,
    switched_at: Instant,
    after: CryptoState,
    raw: Seq<u8>,
    aad: Seq<u8>,
    plaintext: Seq<u8>,
    now: Instant,
    r: Result<DecryptInPlaceOutcome, DecryptFailure>,
    raw_after: Seq<u8>,
    later: CryptoState,
    grace_later: Seq<GraceEntry>,
)
    requires
        before.rx_cipher is Some,
        before.rx_cipher->0.frames() < u64::MAX,
        before.rx_cipher->0.opens_to(raw, aad) == Some(plaintext),
        raw.len() > 0,
        after.rx_cipher is Some,
        after.rx_cipher->0.frames() < u64::MAX,
        after.rx_cipher->0.opens_to(raw, aad) is None,
        now@ < switched_at@ + REKEY_RX_GRACE_SECS * NANOS_PER_SEC,
        after.decrypted(
            raw,
            aad,
            before.retired(grace, switched_at),
            now,
            r,
            raw_after,
            later,
            grace_later,
        ),
    ensures
        r matches Ok(DecryptInPlaceOutcome::GracePlaintext(p)) && p@ == plaintext,
        later == after,
{
    let entries = before.retired(grace, switched_at);
    let entry = GraceEntry { cipher: before.rx_cipher->0, retired_at: switched_at };
    assert(entries.last() == entry);
    assert(in_grace(entry, now));
    let k = kept(entries, now);
    assert(k.last() == entry);
    assert(newest_opening(k, raw, aad) == Some(k.len() - 1));
}

/// Whether a rekey of the peer is answered with an exchange: the session is
/// encrypted, the message is well formed, and no own rekey takes precedence.
pub open spec fn answers_init<K>(
    crypto: CryptoState,
    rekey: RekeyContext<K>,
    local: Seq<u8>,
    peer: Seq<u8>,
    body: Seq<u8>,
) -> bool {
    crypto.is_full() && body.len() == 32 && !(rekey.pending is Some && keeps_own_init(local, peer))
}

/// The peer's public key, when its rekey is answered with an exchange.
pub fn rekey_init_exchange<K>(
    crypto: &CryptoState,
    rekey: &RekeyContext<K>,
    local: &[u8; 32],
    peer: &[u8; 32],
    body: &[u8],
) -> (r: Option<[u8; 32]>)
    ensures
        r is Some == answers_init(*crypto, *rekey, local@, peer@, body@),
        r matches Some(k) ==> k@ == body@,
{
    if crypto.tx_cipher.is_none() || crypto.rx_cipher.is_none() || body.len() != 32 {
        return None;
    }
    if rekey.is_awaiting_ack() && bytes_less(local.as_slice(), peer.as_slice()) {
        return None;
    }
    let k: [u8; 32] = array32_at(body, 0);
    assert(k@ =~= body@);
    Some(k)
}

/// Handles a rekey of the peer. When both sides started one, the side with the
/// smaller identifier tells the peer that it keeps its own; the other side gives
/// its own up. The answer is sealed under the keys so far, and the keys change
/// only once the answer is queued. A cipher that can seal nothing any more ends the
/// session.
pub fn handle_rekey_init_arm<K>(
    crypto: &mut CryptoState,
    session_id: &mut [u8; 32],
    rekey: &mut RekeyContext<K>,
    grace: &mut RekeyRxGraceBuffer,
    local: &[u8; 32],
    peer: &[u8; 32],
    body: &[u8],
    exchange: &Option<RekeyExchange>,
    wire: &mut WireOutbox,
    now: Instant,
) -> (r: ArmOutcome)
    requires
        answers_init(*old(crypto), *old(rekey), local@, peer@, body@) ==> exchange is Some,
    ensures
        ({
            let c = *old(crypto);
            let takes_wire = old(wire).has_room();
            if !c.is_full() || body@.len() != 32 {
                &&& r == ArmOutcome::Continue
                &&& *final(crypto) == c
                &&& *final(session_id) == *old(session_id)
                &&& *final(rekey) == *old(rekey)
                &&& final(grace).entries@ == old(grace).entries@
                &&& *final(wire) == *old(wire)
            } else if !answers_init(c, *old(rekey), local@, peer@, body@) {
                let notice = c.sends(SessionMsg::RekeyKeptInit, Seq::empty());
                &&& *final(session_id) == *old(session_id)
                &&& *final(rekey) == *old(rekey)
                &&& final(grace).entries@ == old(grace).entries@
                &&& final(crypto).rx_cipher == c.rx_cipher
                &&& match notice {
                    None => r == ArmOutcome::Close && *final(crypto) == c && *final(wire) == *old(
                        wire,
                    ),
                    Some(w) => if takes_wire {
                        &&& r == ArmOutcome::Continue
                        &&& c.tx_cipher->0.advanced_to(final(crypto).tx_cipher->0)
                        &&& old(wire).grown_by(w, *final(wire))
                    } else {
                        &&& r == ArmOutcome::WriteFailed
                        &&& c.tx_cipher->0.advanced_to(final(crypto).tx_cipher->0)
                        &&& *final(wire) == *old(wire)
                    },
                }
            } else {
                let e = exchange->0;
                let ack = c.sends(SessionMsg::RekeyAck, e.our_pubkey@);
                if e.keys is None || ack is None {
                    &&& r == ArmOutcome::Close
                    &&& *final(crypto) == c
                    &&& *final(session_id) == *old(session_id)
                    &&& *final(wire) == *old(wire)
                    &&& *final(rekey) == (RekeyContext::<K> { pending: None, ..*old(rekey) })
                    &&& final(grace).entries@ == old(grace).entries@
                } else if !takes_wire {
                    &&& r == ArmOutcome::WriteFailed
                    &&& final(crypto).rx_cipher == c.rx_cipher
                    &&& c.tx_cipher->0.advanced_to(final(crypto).tx_cipher->0)
                    &&& *final(wire) == *old(wire)
                    &&& *final(session_id) == *old(session_id)
                    &&& *final(rekey) == (RekeyContext::<K> { pending: None, ..*old(rekey) })
                    &&& final(grace).entries@ == old(grace).entries@
                } else {
                    &&& r == ArmOutcome::Continue
                    &&& old(wire).grown_by(ack->0, *final(wire))
                    &&& final(crypto).runs_fresh(e.keys->0)
                    &&& *final(session_id) == e.keys->0.session_id
                    &&& final(grace).entries@ == c.retired(old(grace).entries@, now)
                    &&& *final(rekey) == old(rekey).completed(now)
                }
            }
        }),
{
    if crypto.tx_cipher.is_none() || crypto.rx_cipher.is_none() || body.len() != 32 {
        return ArmOutcome::Continue;
    }
    if rekey.is_awaiting_ack() {
        if bytes_less(local.as_slice(), peer.as_slice()) {
            let empty: Vec<u8> = Vec::new();
            assert(empty@ =~= Seq::<u8>::empty());
            return match crypto.prepare(SessionMsg::RekeyKeptInit, empty.as_slice()) {
                None => ArmOutcome::Close,
                Some(notice) => {
                    match wire.push_wire(notice) {
                        Ok(()) => ArmOutcome::Continue,
                        Err(_) => ArmOutcome::WriteFailed,
                    }
                },
            };
        }
        rekey.reset_to_idle();
    }
    let e: &RekeyExchange = match exchange {
        Some(e) => e,
        None => {
            assert(false);
            return ArmOutcome::Close;
        },
    };
    let keys: SessionKeys = match e.keys {
        Some(k) => k,
        None => {
            return ArmOutcome::Close;
        },
    };
    let ghost rx_before = crypto.rx_cipher;
    let ack: Vec<u8> = match crypto.prepare(SessionMsg::RekeyAck, e.our_pubkey.as_slice()) {
        Some(w) => w,
        None => {
            return ArmOutcome::Close;
        },
    };
    match wire.push_wire(ack) {
        Ok(()) => {},
        Err(_) => {
            return ArmOutcome::WriteFailed;
        },
    }
    let _ = crypto.switch_keys(session_id, rekey, grace, &keys, now);
    ArmOutcome::Continue
}

/// Takes the peer's answer to our own rekey: our key pair and the peer's public
/// key, when one was started and the answer is well formed.
pub fn begin_rekey_ack<K>(rekey: &mut RekeyContext<K>, body: &[u8]) -> (r: Option<(K, [u8; 32])>)
    ensures
        r is Some == (old(rekey).pending is Some && body@.len() == 32),
        r matches Some((k, p)) ==> k == old(rekey).pending->0.keypair && p@ == body@,
        *final(rekey) == if old(rekey).pending is Some && body@.len() == 32 {
            RekeyContext::<K> { pending: None, ..*old(rekey) }
        } else {
            *old(rekey)
        },
{
    if body.len() != 32 {
        return None;
    }
    match rekey.pending.take() {
        None => None,
        Some(p) => {
            let k: [u8; 32] = array32_at(body, 0);
            assert(k@ =~= body@);
            Some((p.keypair, k))
        },
    }
}

/// Ends our own rekey with what the exchange gave. A peer whose key contributed
/// nothing ends the session.
pub fn finish_rekey_ack<K>(
    crypto: &mut CryptoState,
    session_id: &mut [u8; 32],
    rekey: &mut RekeyContext<K>,
    grace: &mut RekeyRxGraceBuffer,
    derived: &Option<SessionKeys>,
    now: Instant,
) -> (r: ArmOutcome)
    ensures
        match *derived {
            None => {
                &&& r == ArmOutcome::Close
                &&& *final(crypto) == *old(crypto)
                &&& *final(session_id) == *old(session_id)
                &&& *final(rekey) == *old(rekey)
                &&& final(grace).entries@ == old(grace).entries@
            },
            Some(keys) => {
                &&& r == ArmOutcome::Continue
                &&& final(crypto).runs_fresh(keys)
                &&& *final(session_id) == keys.session_id
                &&& *final(rekey) == old(rekey).completed(now)
                &&& final(grace).entries@ == old(crypto).retired(old(grace).entries@, now)
            },
        },
{
    match derived {
        None => ArmOutcome::Close,
        Some(keys) => {
            let _ = crypto.switch_keys(session_id, rekey, grace, keys, now);
            ArmOutcome::Continue
        },
    }
}

/// Handles the peer's notice that it kept its own rekey: ours will not be
/// answered, and the next one is not due at once.
pub fn handle_rekey_kept_init_arm<K>(rekey: &mut RekeyContext<K>, now: Instant)
    ensures
        *final(rekey) == (RekeyContext::<K> { pending: None, last_rekey_at: now, ..*old(rekey) }),
{
    rekey.reset_to_idle();
    rekey.last_rekey_at = now;
}

/// Whether a direction is close to the end of its counter.
pub open spec fn near_end(c: Option<SessionCipher>) -> bool {
    c matches Some(x) && x.frames() >= NONCE_REKEY_WATERMARK
}

/// Why an own rekey is due at `now`, after one that was never answered was given
/// up.
pub open spec fn own_rekey_due<K>(
    crypto: CryptoState,
    session_id: Seq<u8>,
    rekey: RekeyContext<K>,
    now: Instant,
) -> Option<RekeyTrigger> {
    let idle = rekey.pending is None || rekey.timed_out(now);
    if crypto.tx_cipher is Some && session_id != zeros(32) && idle {
        rekey.due(now, near_end(crypto.tx_cipher) || near_end(crypto.rx_cipher))
    } else {
        None
    }
}

/// Gives up on an own rekey that was never answered, and says why a new one is
/// due.
pub fn x25519_rekey_due<K>(
    crypto: &CryptoState,
    session_id: &[u8; 32],
    rekey: &mut RekeyContext<K>,
    now: Instant,
) -> (r: Option<RekeyTrigger>)
    ensures
        r == own_rekey_due(*crypto, session_id@, *old(rekey), now),
        *final(rekey) == if old(rekey).timed_out(now) {
            RekeyContext::<K> { pending: None, ..*old(rekey) }
        } else {
            *old(rekey)
        },
{
    let _ = rekey.expire_pending(now);
    if crypto.tx_cipher.is_none() || all_zero(session_id.as_slice()) || rekey.is_awaiting_ack() {
        return None;
    }
    let tx_near: bool = match &crypto.tx_cipher {
        Some(c) => c.frames_processed() >= NONCE_REKEY_WATERMARK,
        None => false,
    };
    let rx_near: bool = match &crypto.rx_cipher {
        Some(c) => c.frames_processed() >= NONCE_REKEY_WATERMARK,
        None => false,
    };
    rekey.should_initiate_rekey(now, tx_near || rx_near)
}

/// Starts an own rekey with a fresh key pair: the message to queue for the peer,
/// with its class.
pub fn start_x25519_rekey<K>(
    rekey: &mut RekeyContext<K>,
    keypair: K,
    pubkey: &[u8; 32],
    now: Instant,
) -> (queued: (u8, Vec<u8>))
    ensures
        queued.0 == INTERACTIVE,
        queued.1@ == session_frame(SessionMsg::RekeyInit, pubkey@),
        *final(rekey) == (RekeyContext::<K> {
            pending: Some(PendingInit { keypair, sent_at: now }),
            ..*old(rekey)
        }),
{
    let frame: Vec<u8> = build_session_frame(SessionMsg::RekeyInit, pubkey.as_slice());
    rekey.pending = Some(PendingInit { keypair, sent_at: now });
    (INTERACTIVE, frame)
}

/// A rekey that was started is not due again until it is answered, given up or
/// times out.
pub proof fn no_second_rekey_while_waiting<K>(
    crypto: CryptoState,
    session_id: Seq<u8>,
    rekey: RekeyContext<K>,
    now: Instant,
)
    requires
        rekey.pending is Some,
        !rekey.timed_out(now),
    ensures
        own_rekey_due(crypto, session_id, rekey, now) is None,
{
}

/// A direction close to the end of its counter is rekeyed even when neither
/// threshold is reached.
pub proof fn counter_end_forces_rekey<K>(
    crypto: CryptoState,
    session_id: Seq<u8>,
    rekey: RekeyContext<K>,
    now: Instant,
)
    requires
        crypto.tx_cipher is Some,
        session_id != zeros(32),
        rekey.pending is None || rekey.timed_out(now),
        near_end(crypto.tx_cipher) || near_end(crypto.rx_cipher),
    ensures
        own_rekey_due(crypto, session_id, rekey, now) is Some,
{
}

/// When a session starts a rekey of its own: exactly when it is encrypted and has an
/// identifier, none that it started waits for its answer, and a threshold is reached
/// or either counter nears its end. It does not matter how many rekeys came before.
pub proof fn own_rekeys_are_started_in_time<K>(
    crypto: &CryptoState,
    session_id: &[u8; 32],
    rekey: &mut RekeyContext<K>,
    now: Instant,
    r: Option<RekeyTrigger>,
)
    requires
        call_ensures(x25519_rekey_due, (crypto, session_id, rekey, now), r),
    ensures
        ({
            let c = *old(rekey);
            let waits = c.pending is Some && now@ < c.pending->0.sent_at@ + 60 * 1_000_000_000;
            let bytes = c.bytes_since_rekey >= c.config.bytes_threshold;
            let time = now@ >= c.last_rekey_at@ + c.config.time_threshold_secs * 1_000_000_000;
            let counter = (crypto.tx_cipher is Some && crypto.tx_cipher->0.frames()
                >= 0x4000_0000_0000_0000) || (crypto.rx_cipher is Some
                && crypto.rx_cipher->0.frames() >= 0x4000_0000_0000_0000);
            &&& r is Some <==> crypto.tx_cipher is Some && session_id@ != zeros(32) && !waits && (
            bytes || time || counter)
            &&& r is Some && bytes ==> r == Some(RekeyTrigger::Bytes)
            &&& r is Some && !bytes && time ==> r == Some(RekeyTrigger::Time)
            &&& waits ==> final(rekey).pending == c.pending
            &&& !waits ==> final(rekey).pending is None
            &&& final(rekey).bytes_since_rekey == c.bytes_since_rekey
            &&& final(rekey).last_rekey_at == c.last_rekey_at
            &&& final(rekey).config == c.config
            &&& final(rekey).generation == c.generation
        }),
{
}

/// A rekey that was started waits with its own key pair, is announced with its own
/// public key, and is not started again while it waits.
pub proof fn a_started_rekey_waits<K>(
    crypto: &CryptoState,
    session_id: &[u8; 32],
    rekey: &mut RekeyContext<K>,
    keypair: K,
    pubkey: &[u8; 32],
    at: Instant,
    queued: (u8, Vec<u8>),
    again: &mut RekeyContext<K>,
    now: Instant,
    r: Option<RekeyTrigger>,
)
    requires
        call_ensures(start_x25519_rekey, (rekey, keypair, pubkey, at), queued),
        *old(again) == *final(rekey),
        call_ensures(x25519_rekey_due, (crypto, session_id, again, now), r),
    ensures
        queued.0 == INTERACTIVE,
        queued.1@ == plain_frame(
            FrameFamily::Session.code_spec(),
            SessionMsg::RekeyInit.code_spec(),
            pubkey@,
        ),
        final(rekey).pending is Some && final(rekey).pending->0.keypair == keypair && final(rekey).pending->0.sent_at == at,
        final(rekey).bytes_since_rekey == old(rekey).bytes_since_rekey,
        final(rekey).last_rekey_at == old(rekey).last_rekey_at,
        now@ < at@ + 60 * 1_000_000_000 ==> r is None && final(again).pending
            == final(rekey).pending,
        now@ >= at@ + 60 * 1_000_000_000 ==> final(again).pending is None,
{
}

/// New keys replace both directions at once, each with the key of that direction and
/// from the first frame on, and the identifier with them. The cipher that received so
/// far is kept for what is still under way, and the count begins anew.
pub proof fn new_keys_replace_both_directions<K>(
    c: &mut CryptoState,
    session_id: &mut [u8; 32],
    rekey: &mut RekeyContext<K>,
    grace: &mut RekeyRxGraceBuffer,
    keys: &SessionKeys,
    now: Instant,
    evicted: bool,
)
    requires
        call_ensures(
            CryptoState::switch_keys::<K>,
            (c, session_id, rekey, grace, keys, now),
            evicted,
        ),
    ensures
        final(c).tx_cipher is Some && final(c).rx_cipher is Some,
        final(c).tx_cipher->0.key() == keys.tx_key@ && final(c).tx_cipher->0.frames() == 0,
        final(c).rx_cipher->0.key() == keys.rx_key@ && final(c).rx_cipher->0.frames() == 0,
        final(session_id)@ == keys.session_id@,
        old(c).rx_cipher is Some ==> final(grace).entries@.len() > 0 && final(grace).entries@.last() == (GraceEntry { cipher: old(c).rx_cipher->0, retired_at: now }),
        old(c).rx_cipher is None ==> final(grace).entries@ == old(grace).entries@,
        final(rekey).bytes_since_rekey == 0,
        final(rekey).last_rekey_at == now,
        final(rekey).pending is None,
        final(rekey).config == old(rekey).config,
{
}

/// The two ends of a rekey never both give up and never both go on with their own: of
/// two different nodes that started one at once, the one with the smaller identifier
/// keeps its own and answers no other, and the other one answers.
pub proof fn one_of_two_rekeys_goes_on<K>(
    ours: &CryptoState,
    theirs: &CryptoState,
    our_rekey: &RekeyContext<K>,
    their_rekey: &RekeyContext<K>,
    a: &[u8; 32],
    b: &[u8; 32],
    from_b: &[u8],
    from_a: &[u8],
    r: Option<[u8; 32]>,
    q: Option<[u8; 32]>,
)
    requires
        a@ != b@,
        call_ensures(rekey_init_exchange, (ours, our_rekey, a, b, from_b), r),
        call_ensures(rekey_init_exchange, (theirs, their_rekey, b, a, from_a), q),
        ours.tx_cipher is Some && ours.rx_cipher is Some,
        theirs.tx_cipher is Some && theirs.rx_cipher is Some,
        from_a@.len() == 32 && from_b@.len() == 32,
    ensures
        our_rekey.pending is Some && their_rekey.pending is Some ==> (r is Some <==> q is None),
        our_rekey.pending is None ==> r is Some,
        r is Some ==> r->0@ == from_b@,
        our_rekey.pending is Some ==> (r is None <==> lex_less(a@, b@)),
{
    lemma_lex_less_total(a@, b@);
}

/// A peer's rekey is carried out only together with its answer: the keys change exactly
/// when the answer was handed to the writer, sealed under the keys so far, and to the
/// keys of the exchange. A message of the wrong length and one to a session that is not
/// encrypted change nothing.
pub proof fn keys_change_with_the_answer<K>(
    c: &mut CryptoState,
    session_id: &mut [u8; 32],
    rekey: &mut RekeyContext<K>,
    grace: &mut RekeyRxGraceBuffer,
    local: &[u8; 32],
    peer: &[u8; 32],
    body: &[u8],
    exchange: &Option<RekeyExchange>,
    wire: &mut WireOutbox,
    now: Instant,
    r: ArmOutcome,
)
    requires
        call_ensures(
            handle_rekey_init_arm::<K>,
            (c, session_id, rekey, grace, local, peer, body, exchange, wire, now),
            r,
        ),
    ensures
        ({
            let sealed = old(c).tx_cipher is Some && old(c).rx_cipher is Some;
            let own = old(rekey).pending is Some && lex_less(local@, peer@);
            let room = !old(wire).closed && old(wire).slots > 0;
            let msg = if own {
                SessionMsg::RekeyKeptInit
            } else {
                SessionMsg::RekeyAck
            };
            &&& !sealed || body@.len() != 32 ==> r == ArmOutcome::Continue && *final(c) == *old(c)
                && *final(session_id) == *old(session_id) && *final(wire) == *old(wire) && *final(rekey) == *old(rekey) && final(grace).entries@ == old(grace).entries@
            &&& sealed && body@.len() == 32 && own ==> final(c).rx_cipher == old(c).rx_cipher
                && *final(session_id) == *old(session_id) && *final(rekey) == *old(rekey)
            &&& sealed && body@.len() == 32 && r == ArmOutcome::Continue ==> {
                &&& room
                &&& final(wire).writes@.len() == old(wire).writes@.len() + 1
                &&& Some(final(wire).writes@.last()@) == wire_of(
                    plain_frame(
                        FrameFamily::Session.code_spec(),
                        msg.code_spec(),
                        if own {
                            Seq::empty()
                        } else {
                            exchange->0.our_pubkey@
                        },
                    ),
                    old(c).tx_cipher->0.key(),
                    old(c).tx_cipher->0.frames(),
                )
            }
            &&& sealed && body@.len() == 32 && !own && r == ArmOutcome::Continue ==> {
                let keys = exchange->0.keys->0;
                &&& exchange->0.keys is Some
                &&& final(c).tx_cipher is Some && final(c).tx_cipher->0.key() == keys.tx_key@
                    && final(c).tx_cipher->0.frames() == 0
                &&& final(c).rx_cipher is Some && final(c).rx_cipher->0.key() == keys.rx_key@
                    && final(c).rx_cipher->0.frames() == 0
                &&& final(session_id)@ == keys.session_id@
                &&& final(grace).entries@.last() == (GraceEntry {
                    cipher: old(c).rx_cipher->0,
                    retired_at: now,
                })
                &&& final(rekey).last_rekey_at == now && final(rekey).bytes_since_rekey == 0
                    && final(rekey).pending is None
            }
            &&& r != ArmOutcome::Continue ==> *final(wire) == *old(wire) && *final(session_id)
                == *old(session_id) && final(c).rx_cipher == old(c).rx_cipher && final(grace).entries@ == old(grace).entries@
            &&& sealed && body@.len() == 32 && !own && exchange->0.keys is None ==> r
                == ArmOutcome::Close && *final(c) == *old(c)
            &&& sealed && body@.len() == 32 && !room ==> r != ArmOutcome::Continue
        }),
{
}

/// The answer to a rekey of our own is taken once, with the key pair that was sent for
/// it, and only while it waits; then the new keys replace the old ones.
pub proof fn an_answer_ends_our_rekey<K>(
    rekey: &mut RekeyContext<K>,
    body: &[u8],
    r: Option<(K, [u8; 32])>,
)
    requires
        call_ensures(begin_rekey_ack::<K>, (rekey, body), r),
    ensures
        r is Some <==> old(rekey).pending is Some && body@.len() == 32,
        r is Some ==> (r->0).0 == old(rekey).pending->0.keypair && (r->0).1@ == body@ && final(rekey).pending is None,
        r is None ==> final(rekey).pending == old(rekey).pending,
        final(rekey).bytes_since_rekey == old(rekey).bytes_since_rekey,
        final(rekey).last_rekey_at == old(rekey).last_rekey_at,
        final(rekey).generation == old(rekey).generation,
{
}

/// What the exchange gave is what the session goes on with; where it gave nothing, the
/// session ends under the keys so far.
pub proof fn our_rekey_ends_with_new_keys<K>(
    c: &mut CryptoState,
    session_id: &mut [u8; 32],
    rekey: &mut RekeyContext<K>,
    grace: &mut RekeyRxGraceBuffer,
    derived: &Option<SessionKeys>,
    now: Instant,
    r: ArmOutcome,
)
    requires
        call_ensures(finish_rekey_ack::<K>, (c, session_id, rekey, grace, derived, now), r),
    ensures
        r == ArmOutcome::Continue <==> *derived is Some,
        *derived is None ==> r == ArmOutcome::Close && *final(c) == *old(c) && *final(session_id)
            == *old(session_id),
        *derived is Some ==> {
            &&& final(c).tx_cipher is Some && final(c).tx_cipher->0.key() == derived->0.tx_key@
                && final(c).tx_cipher->0.frames() == 0
            &&& final(c).rx_cipher is Some && final(c).rx_cipher->0.key() == derived->0.rx_key@
                && final(c).rx_cipher->0.frames() == 0
            &&& final(session_id)@ == derived->0.session_id@
            &&& final(rekey).last_rekey_at == now && final(rekey).bytes_since_rekey == 0
            &&& old(c).rx_cipher is Some ==> final(grace).entries@.last() == (GraceEntry {
                cipher: old(c).rx_cipher->0,
                retired_at: now,
            })
        },
{
}

/// A peer that keeps its own rekey ends ours and puts the next one off, without a change
/// of keys.
pub proof fn a_kept_rekey_ends_ours<K>(rekey: &mut RekeyContext<K>, now: Instant)
    requires
        call_ensures(handle_rekey_kept_init_arm::<K>, (rekey, now), ()),
    ensures
        final(rekey).pending is None,
        final(rekey).last_rekey_at == now,
        final(rekey).bytes_since_rekey == old(rekey).bytes_since_rekey,
        final(rekey).generation == old(rekey).generation,
        final(rekey).config == old(rekey).config,
{
}

} // verus!
