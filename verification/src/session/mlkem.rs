//! Rotating the post-quantum keys for messages between the two ends.

use crate::bytes::copy_bytes;
use crate::session::messages::SessionMsg;
use crate::session::peers::{BoundedPeerMap, Stamped};
use crate::session::rekey::{saturating, ArmOutcome, CryptoState};
use crate::session::rekey_arms::{build_session_frame, session_frame};
use crate::session::tx_registry::INTERACTIVE;
use crate::session::wire::WireOutbox;
use crate::time::{Duration, Instant, NANOS_PER_SEC};
use vstd::prelude::*;

verus! {

/// Length in bytes of an ML-KEM-768 encapsulation key.
pub const MLKEM_EK_LEN: usize = 1184;

/// Length in bytes of the seed of an ML-KEM decapsulation key.
pub const DK_SEED_BYTES: usize = 64;

/// Where a session stands with rotating its own encapsulation key.
#[derive(Clone, Copy, Debug)]
pub struct MlKemRekeyContext {
    pub bytes_threshold: u64,
    pub time_threshold_secs: u64,
    pub bytes_since_rekey: u64,
    pub last_rekey_at: Instant,
    /// The seed of a key that the peer has not acknowledged.
    pub pending: Option<[u8; 64]>,
}

impl MlKemRekeyContext {
    /// A session that starts at `now`.
    pub fn new(bytes_threshold: u64, time_threshold_secs: u64, now: Instant) -> (c: MlKemRekeyContext)
        ensures
            c == (MlKemRekeyContext {
                bytes_threshold,
                time_threshold_secs,
                bytes_since_rekey: 0,
                last_rekey_at: now,
                pending: None,
            }),
    {
        MlKemRekeyContext {
            bytes_threshold,
            time_threshold_secs,
            bytes_since_rekey: 0,
            last_rekey_at: now,
            pending: None,
        }
    }

    /// Whether a new key waits to be acknowledged.
    pub fn is_awaiting_ack(&self) -> (b: bool)
        ensures
            b == (self.pending is Some),
    {
        self.pending.is_some()
    }

    /// The state after `n` more bytes went over the wire.
    pub open spec fn counted(self, n: int) -> MlKemRekeyContext {
        MlKemRekeyContext {
            bytes_since_rekey: saturating(self.bytes_since_rekey as int, n),
            ..self
        }
    }

    /// Counts bytes that went over the wire.
    pub fn record_bytes(&mut self, n: u64)
        ensures
            *final(self) == old(self).counted(n as int),
    {
        self.bytes_since_rekey = self.bytes_since_rekey.saturating_add(n);
    }

    /// Whether a new key is due at `now`.
    pub open spec fn due(self, now: Instant) -> bool {
        self.bytes_since_rekey >= self.bytes_threshold || now@ >= self.last_rekey_at@
            + self.time_threshold_secs * NANOS_PER_SEC
    }

    /// Whether a new key is due at `now`.
    pub fn should_initiate_rekey(&self, now: Instant) -> (b: bool)
        ensures
            b == self.due(now),
    {
        self.bytes_since_rekey >= self.bytes_threshold || now.reached(
            self.last_rekey_at,
            Duration::from_secs(self.time_threshold_secs),
        )
    }

    /// Takes the seed of a key that the peer acknowledged at `now`, and starts
    /// counting anew.
    pub fn take_dk_seed_on_ack(&mut self, now: Instant) -> (r: Option<[u8; 64]>)
        ensures
            r == old(self).pending,
            *final(self) == if old(self).pending is Some {
                MlKemRekeyContext {
                    bytes_since_rekey: 0,
                    last_rekey_at: now,
                    pending: None,
                    ..*old(self)
                }
            } else {
                *old(self)
            },
    {
        let seed: Option<[u8; 64]> = self.pending;
        if seed.is_some() {
            self.bytes_since_rekey = 0;
            self.last_rekey_at = now;
            self.pending = None;
        }
        seed
    }
}

/// Handles a new encapsulation key of the peer: it is kept for messages to the
/// peer, and acknowledged by an empty message. A malformed one is ignored, as is
/// any when no keys are kept.
pub fn handle_mlkem_rekey_ek_arm(
    crypto: &mut CryptoState,
    peer: &[u8; 32],
    cache: &mut Option<BoundedPeerMap<Vec<u8>>>,
    body: &[u8],
    wire: &mut WireOutbox,
    now: Instant,
) -> (r: ArmOutcome)
    ensures
        ({
            let takes_wire = old(wire).has_room();
            let ack = old(crypto).sends(SessionMsg::MlKemRekeyAck, Seq::empty());
            &&& final(crypto).rx_cipher == old(crypto).rx_cipher
            &&& if body@.len() != MLKEM_EK_LEN || (*old(cache)) is None {
                &&& r == ArmOutcome::Continue
                &&& *final(crypto) == *old(crypto)
                &&& *final(cache) == *old(cache)
                &&& *final(wire) == *old(wire)
            } else {
                &&& (*final(cache)) is Some
                &&& (*final(cache))->0.capacity == (*old(cache))->0.capacity
                &&& (*final(cache))->0.rows@.contains_key(peer@)
                &&& (*final(cache))->0.rows@[peer@].value@ == body@
                &&& BoundedPeerMap::put(
                    (*old(cache))->0.rows@,
                    (*old(cache))->0.full(),
                    peer@,
                    Stamped { stamp: now, value: (*final(cache))->0.rows@[peer@].value },
                    (*final(cache))->0.rows@,
                )
                &&& match ack {
                    None => r == ArmOutcome::Close && *final(crypto) == *old(crypto) && *final(wire)
                        == *old(wire),
                    Some(w) => {
                        &&& final(crypto).tx_cipher is Some == old(crypto).tx_cipher is Some
                        &&& old(crypto).tx_cipher is Some ==> old(
                            crypto,
                        ).tx_cipher->0.advanced_to(final(crypto).tx_cipher->0)
                        &&& if takes_wire {
                            &&& r == ArmOutcome::Continue
                            &&& old(wire).grown_by(w, *final(wire))
                        } else {
                            &&& r == ArmOutcome::WriteFailed
                            &&& *final(wire) == *old(wire)
                        }
                    },
                }
            }
        }),
{
    if body.len() != MLKEM_EK_LEN {
        return ArmOutcome::Continue;
    }
    match cache {
        None => {
            return ArmOutcome::Continue;
        },
        Some(c) => {
            c.insert_evicting_oldest(peer.as_slice(), copy_bytes(body), now);
        },
    }
    let empty: Vec<u8> = Vec::new();
    assert(empty@ =~= Seq::<u8>::empty());
    match crypto.prepare(SessionMsg::MlKemRekeyAck, empty.as_slice()) {
        None => ArmOutcome::Close,
        Some(ack) => {
            match wire.push_wire(ack) {
                Ok(()) => ArmOutcome::Continue,
                Err(_) => ArmOutcome::WriteFailed,
            }
        },
    }
}

/// Handles the peer's acknowledgement of our new key: its seed is kept for
/// messages from the peer. Without a key that waits, or without a place for the
/// seed, nothing happens.
pub fn handle_mlkem_rekey_ack_arm(
    mlkem: &mut MlKemRekeyContext,
    peer: &[u8; 32],
    seeds: &mut Option<BoundedPeerMap<[u8; 64]>>,
    now: Instant,
)
    ensures
        if old(mlkem).pending is None || (*old(seeds)) is None {
            *final(mlkem) == *old(mlkem) && *final(seeds) == *old(seeds)
        } else {
            let entry = Stamped { stamp: now, value: old(mlkem).pending->0 };
            &&& *final(mlkem) == (MlKemRekeyContext {
                bytes_since_rekey: 0,
                last_rekey_at: now,
                pending: None,
                ..*old(mlkem)
            })
            &&& (*final(seeds)) is Some
            &&& (*final(seeds))->0.capacity == (*old(seeds))->0.capacity
            &&& if (*old(seeds))->0.full() && !(*old(seeds))->0.rows@.contains_key(peer@) {
                exists|k: Seq<u8>| #[trigger]
                    (*old(seeds))->0.rows@.contains_key(k) && (*final(seeds))->0.rows@ == (*old(seeds))->0.rows@.remove(k).insert(peer@, entry)
            } else {
                (*final(seeds))->0.rows@ == (*old(seeds))->0.rows@.insert(peer@, entry)
            }
        },
{
    if !mlkem.is_awaiting_ack() {
        return;
    }
    match seeds {
        None => {},
        Some(s) => {
            match mlkem.take_dk_seed_on_ack(now) {
                None => {},
                Some(seed) => {
                    s.insert_evicting_any(peer.as_slice(), seed, now);
                },
            }
        },
    }
}

/// Whether a new encapsulation key is due: keys are kept on both sides, none
/// waits to be acknowledged, and a threshold is reached.
pub fn mlkem_rekey_due(
    mlkem: &MlKemRekeyContext,
    keeps_seeds: bool,
    keeps_keys: bool,
    now: Instant,
) -> (b: bool)
    ensures
        b == (keeps_seeds && keeps_keys && mlkem.pending is None && mlkem.due(now)),
{
    keeps_seeds && keeps_keys && !mlkem.is_awaiting_ack() && mlkem.should_initiate_rekey(now)
}

/// Starts to use a new key pair: the message to queue for the peer, with its class.
pub fn start_mlkem_rekey(mlkem: &mut MlKemRekeyContext, ek: &[u8; 1184], seed: [u8; 64]) -> (queued:
    (u8, Vec<u8>))
    ensures
        queued.0 == INTERACTIVE,
        queued.1@ == session_frame(SessionMsg::MlKemRekeyEk, ek@),
        *final(mlkem) == (MlKemRekeyContext { pending: Some(seed), ..*old(mlkem) }),
{
    mlkem.pending = Some(seed);
    (INTERACTIVE, build_session_frame(SessionMsg::MlKemRekeyEk, ek.as_slice()))
}

/// A new key is due when as many bytes as the threshold or as much time as allowed have
/// passed since the last, whichever comes first, as long as keys are kept on both sides
/// and none waits to be acknowledged.
pub proof fn when_a_new_key_is_due(
    m: &MlKemRekeyContext,
    keeps_seeds: bool,
    keeps_keys: bool,
    now: Instant,
    due: bool,
    reached: bool,
    waiting: bool,
)
    requires
        call_ensures(mlkem_rekey_due, (m, keeps_seeds, keeps_keys, now), due),
        call_ensures(MlKemRekeyContext::should_initiate_rekey, (m, now), reached),
        call_ensures(MlKemRekeyContext::is_awaiting_ack, (m,), waiting),
    ensures
        reached <==> m.bytes_since_rekey >= m.bytes_threshold || now@ >= m.last_rekey_at@
            + m.time_threshold_secs * 1_000_000_000,
        waiting <==> m.pending is Some,
        due <==> keeps_seeds && keeps_keys && !waiting && reached,
{
}

/// Bytes add up until they are too many to be counted, and nothing else changes.
pub proof fn key_bytes_add_up(m: &mut MlKemRekeyContext, n: u64)
    requires
        call_ensures(MlKemRekeyContext::record_bytes, (m, n), ()),
    ensures
        old(m).bytes_since_rekey + n <= u64::MAX ==> final(m).bytes_since_rekey == old(m).bytes_since_rekey + n,
        old(m).bytes_since_rekey + n > u64::MAX ==> final(m).bytes_since_rekey == u64::MAX,
        final(m).bytes_threshold == old(m).bytes_threshold,
        final(m).time_threshold_secs == old(m).time_threshold_secs,
        final(m).last_rekey_at == old(m).last_rekey_at,
        final(m).pending == old(m).pending,
{
}

/// A new key is sent whole to the peer, and no other is due until the peer acknowledges
/// it; then its seed is kept for the peer, and the thresholds start anew.
pub proof fn a_new_key_is_used_once_acknowledged(
    m: &mut MlKemRekeyContext,
    ek: &[u8; 1184],
    seed: [u8; 64],
    queued: (u8, Vec<u8>),
    now: Instant,
    due: bool,
    a: &mut MlKemRekeyContext,
    peer: &[u8; 32],
    seeds: &mut Option<BoundedPeerMap<[u8; 64]>>,
    then: Instant,
)
    requires
        call_ensures(start_mlkem_rekey, (m, ek, seed), queued),
        call_ensures(mlkem_rekey_due, (&*final(m), true, true, now), due),
        *old(a) == *final(m),
        *old(seeds) is Some,
        call_ensures(handle_mlkem_rekey_ack_arm, (a, peer, seeds, then), ()),
    ensures
        !due,
        queued.0 == 1,
        queued.1@ == session_frame(SessionMsg::MlKemRekeyEk, ek@),
        final(m).pending == Some(seed),
        final(m).bytes_since_rekey == old(m).bytes_since_rekey,
        final(a).pending is None,
        final(a).bytes_since_rekey == 0,
        final(a).last_rekey_at == then,
        final(a).bytes_threshold == old(m).bytes_threshold,
        final(a).time_threshold_secs == old(m).time_threshold_secs,
        *final(seeds) is Some,
        (*final(seeds))->0.rows@.contains_key(peer@),
        (*final(seeds))->0.rows@[peer@].value == seed,
        (*final(seeds))->0.rows@[peer@].stamp == then,
{
}

/// An acknowledgement that nothing waits for changes nothing, and one for which there is
/// no place leaves the key waiting.
pub proof fn a_stray_acknowledgement_is_ignored(
    a: &mut MlKemRekeyContext,
    peer: &[u8; 32],
    seeds: &mut Option<BoundedPeerMap<[u8; 64]>>,
    then: Instant,
)
    requires
        old(a).pending is None || *old(seeds) is None,
        call_ensures(handle_mlkem_rekey_ack_arm, (a, peer, seeds, then), ()),
    ensures
        *final(a) == *old(a),
        *final(seeds) == *old(seeds),
{
}

/// A seed is taken once.
pub proof fn a_seed_is_taken_once(
    m: &mut MlKemRekeyContext,
    now: Instant,
    r: Option<[u8; 64]>,
    n: &mut MlKemRekeyContext,
    later: Instant,
    again: Option<[u8; 64]>,
)
    requires
        call_ensures(MlKemRekeyContext::take_dk_seed_on_ack, (m, now), r),
        *old(n) == *final(m),
        call_ensures(MlKemRekeyContext::take_dk_seed_on_ack, (n, later), again),
    ensures
        r == old(m).pending,
        again is None,
        r is Some ==> final(m).bytes_since_rekey == 0 && final(m).last_rekey_at == now,
        r is None ==> *final(m) == *old(m),
{
}

/// A key of the peer is kept and answered exactly when it has 1184 bytes and keys are
/// kept; anything else is left alone.
pub proof fn a_key_of_the_peer_is_kept(
    c: &mut CryptoState,
    peer: &[u8; 32],
    cache: &mut Option<BoundedPeerMap<Vec<u8>>>,
    body: &[u8],
    wire: &mut WireOutbox,
    now: Instant,
    r: ArmOutcome,
)
    requires
        call_ensures(handle_mlkem_rekey_ek_arm, (c, peer, cache, body, wire, now), r),
    ensures
        body@.len() == 1184 && *old(cache) is Some ==> {
            &&& *final(cache) is Some
            &&& (*final(cache))->0.rows@.contains_key(peer@)
            &&& (*final(cache))->0.rows@[peer@].value@ == body@
            &&& old(c).sends(SessionMsg::MlKemRekeyAck, Seq::empty()) is Some && old(wire).has_room() ==> r == ArmOutcome::Continue && old(wire).grown_by(
                old(c).sends(SessionMsg::MlKemRekeyAck, Seq::empty())->0,
                *final(wire),
            )
            &&& r == ArmOutcome::Close <==> old(c).sends(
                SessionMsg::MlKemRekeyAck,
                Seq::empty(),
            ) is None
        },
        body@.len() != 1184 || *old(cache) is None ==> {
            &&& r == ArmOutcome::Continue
            &&& *final(c) == *old(c)
            &&& *final(cache) == *old(cache)
            &&& *final(wire) == *old(wire)
        },
        final(c).rx_cipher == old(c).rx_cipher,
{
}

} // verus!
