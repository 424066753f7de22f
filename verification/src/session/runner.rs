//! One session after its handshake: what it does with every input.
//!
//! A session goes round a loop. It queues what is due at a tick, sends from its
//! queue what the writer has room for, waits for the next input, and reads, opens
//! and routes the frames that come in. Sockets, timers and tasks are outside; each
//! method here takes what happened there and says what to do next.

use crate::crypto::{random_bytes, AEAD_OVERHEAD};
use crate::session::frame::{
    aad_of, apply_tx_cipher, build_frame, decode_header_with_limit, encrypted_wire_len,
    header_bytes, header_of, header_reads_back, padding_frame, plain_frame, read_frames, received, wire_of, FrameHeader,
    HeaderError, HEADER_SIZE, MAX_FRAME_BODY,
};
use crate::session::liveness::{
    compute_sleep_deadline, CloseReason, Liveness, ProbeStage, Tick, TriggerReason,
};
use crate::session::messages::{ControlMsg, DiscoveryMsg, FrameFamily, SessionMsg};
use crate::session::mlkem::MlKemRekeyContext;
use crate::session::outbound::{
    all_receivable, all_received, flush_plain, flush_sealed, flushes_plain, flushes_sealed, plain_bytes, FlushOutcome,
};
use crate::session::pacing::{
    BackpressureSignal, OutboundBatchCoalescer, SessionRotationDeadline,
};
use crate::session::pending::{
    lemma_position, lemma_unexpired, position, unexpired, waited_longest, without, PendingResponse,
    PendingResponseTable,
};
use crate::session::pow::{accept_challenge, BudgetGuard, PowBudget};
use crate::session::rekey::{
    kept, CryptoState, DecryptFailure, DecryptInPlaceOutcome, GraceEntry, RekeyConfig, RekeyContext,
    RekeyRxGraceBuffer, SessionKeys,
};
use crate::session::rekey_arms::build_session_frame;
use crate::session::timers::SessionTimers;
use crate::session::tx_registry::{INTERACTIVE, REALTIME};
use crate::session::wire::WireOutbox;
use crate::session::write_error_tracker::{TriggerFire, WriteErrorTracker};
use crate::time::{Duration, Instant, NANOS_PER_SEC};
use vstd::prelude::*;

verus! {

/// The class of frames that can always wait.
pub const BACKGROUND: u8 = 3;

/// How long a write may take, in seconds.
pub const WRITE_PROGRESS_TIMEOUT: u64 = 30;

/// How long the body of a frame may take, in seconds.
pub const BODY_DEADLINE_SECS: u64 = 30;

/// How often the battery is looked at, in seconds.
pub const BATTERY_CHECK_INTERVAL_SECS: u64 = 60;

/// How far apart signals of congestion are at least, in seconds.
pub const BP_SIGNAL_COOLDOWN_SECS: u64 = 1;

/// Length in bytes of the body of a cover frame.
pub const COVER_BODY_LEN: usize = 32;

/// The state of a session. `K` is a key pair of an own rekey, `R` is where the
/// answer to a request goes.
pub struct SessionRunner<K, R> {
    pub peer_id: [u8; 32],
    pub local_node_id: [u8; 32],
    pub session_id: [u8; 32],
    pub crypto: CryptoState,
    pub rekey: RekeyContext<K>,
    pub grace: RekeyRxGraceBuffer,
    pub mlkem: MlKemRekeyContext,
    pub liveness: Liveness,
    pub pending: PendingResponseTable<R>,
    pub bp_signal: BackpressureSignal,
    pub coalescer: OutboundBatchCoalescer,
    pub rotation: SessionRotationDeadline,
    /// When the battery is looked at next.
    pub battery_check: Instant,
    pub write_errors: WriteErrorTracker,
    pub max_frame_body: u32,
    pub raw_session_keys: Option<SessionKeys>,
}

/// How a session is configured.
#[derive(Clone, Copy, Debug)]
pub struct RunnerConfig {
    /// The wait between keepalives; none are sent when it is zero.
    pub keepalive_interval: Duration,
    /// How long the line may be silent; without end when it is zero.
    pub idle_timeout: Duration,
    pub rekey: RekeyConfig,
    pub mlkem_bytes_threshold: u64,
    pub mlkem_time_threshold_secs: u64,
    /// How many requests may wait for their answers.
    pub max_pending_responses: usize,
    /// How long a request waits for its answer.
    pub pending_response_ttl: Duration,
    pub max_frame_body: u32,
    /// After how many failed writes another transport is tried.
    pub auto_trigger_after_write_errors: u32,
}

/// What a tick asks for.
#[derive(Debug)]
pub struct TickPlan {
    /// End the session.
    pub close: Option<CloseReason>,
    /// Try another transport because the line has stalled.
    pub stalled: bool,
    /// Frames to queue, with their priorities.
    pub frames: Vec<(u8, Vec<u8>)>,
    /// What to do about an overdue keepalive.
    pub probe: ProbeStage,
}

/// The next input of a session.
pub enum NextInput<R> {
    /// The first byte of a frame.
    Byte(u8),
    /// A frame to send.
    OutboxFrame(u8, Vec<u8>),
    /// A request to send, whose answer goes to the given place.
    RpcRequest { request_id: u64, frame: Vec<u8>, reply_to: R },
    /// A deadline has passed.
    Timer,
    /// The session has moved to another transport.
    SwapStream,
    /// Nothing more can be read.
    ReadClosed,
    /// Nothing more can be written.
    WriterClosed,
}

/// What to do with an input.
#[derive(Debug)]
pub enum InputAction {
    /// Read the rest of a frame that starts with this byte.
    ReadFrame(u8),
    /// Queue this frame.
    Enqueue(u8, Vec<u8>),
    /// Go on; look at the battery if told so.
    Resume { check_battery: bool },
    /// Try a fresh connection, and end the session if that is not possible.
    Rotate,
    /// End the session, after trying another transport for the given reason.
    Close(Option<TriggerReason>),
}

/// Where a frame goes.
pub enum Route<R> {
    RekeyInit,
    RekeyAck,
    RekeyKeptInit,
    MlKemRekeyEk,
    MlKemRekeyAck,
    Ticket,
    HandoffInit,
    HandoffAck,
    TransportMigrationNotify,
    RequestEphemeralEndpoint,
    /// The frame is padding, or has no place on an established session.
    Drop,
    /// The frame answers one of our requests.
    Answer(R),
    /// The frame goes to the dispatcher.
    Dispatch,
}

/// What the dispatcher made of a frame.
pub enum DispatchResult {
    /// Send these bytes back.
    Response(Vec<u8>),
    NoResponse,
    /// The peer has violated the protocol, in the way that is told.
    Violation(String),
    /// The peer sends too much.
    RateLimited,
    NotHandled,
    /// The peer asks for a puzzle of this difficulty to be solved.
    SolvePow(u8),
}

/// What to do after the dispatcher.
#[derive(Debug)]
pub enum DispatchOutcome {
    /// Go on.
    Continue,
    /// End the session.
    Close,
    /// A write was refused: count the failure and end the session.
    WriteFailed,
    /// Note a violation, in the way that is told, and go on.
    Violation(String),
    /// Solve the puzzle.
    Solve(BudgetGuard),
}

/// What to ask for before a response is sent.
#[derive(Clone, Copy, Debug, PartialEq, Eq, Structural)]
pub enum ResponsePlan {
    /// The writer has no slot: drop the response.
    Skip,
    /// The response is too long: end the session.
    Close,
    /// Ask for leave to send so many bytes.
    AskLeave(usize),
}

/// A keepalive frame.
pub open spec fn keepalive_frame() -> Seq<u8> {
    plain_frame(
        FrameFamily::Control.code_spec(),
        ControlMsg::Keepalive.code_spec(),
        Seq::empty(),
    )
}

/// A frame that says that the peer sends too much.
pub open spec fn backpressure_frame() -> Seq<u8> {
    plain_frame(
        FrameFamily::Control.code_spec(),
        ControlMsg::Backpressure.code_spec(),
        Seq::empty(),
    )
}

fn build_control_frame(msg: ControlMsg) -> (v: Vec<u8>)
    ensures
        v@ == plain_frame(FrameFamily::Control.code_spec(), msg.code_spec(), Seq::empty()),
        v@.len() == HEADER_SIZE,
{
    let empty: Vec<u8> = Vec::new();
    assert(empty@ =~= Seq::<u8>::empty());
    build_frame(FrameFamily::Control.code(), msg.code(), empty.as_slice())
}

/// Whether a frame is a cover frame.
pub open spec fn is_cover_frame(f: Seq<u8>) -> bool {
    exists|body: Seq<u8>| body.len() == COVER_BODY_LEN && f == #[trigger] padding_frame(body)
}

/// Builds a cover frame: padding with a random body.
pub fn build_cover_frame() -> (v: Vec<u8>)
    ensures
        is_cover_frame(v@),
{
    let body: Vec<u8> = random_bytes(COVER_BODY_LEN);
    let v: Vec<u8> = build_session_frame(SessionMsg::Padding, body.as_slice());
    assert(v@ == padding_frame(body@));
    v
}

/// The plaintext that opening a body gave.
pub open spec fn plaintext_of(o: DecryptInPlaceOutcome, raw_after: Seq<u8>) -> Seq<u8> {
    match o {
        DecryptInPlaceOutcome::GracePlaintext(p) => p@,
        _ => raw_after,
    }
}

/// Where a frame with a header goes, apart from answers to requests.
pub open spec fn route_of<R>(h: FrameHeader, r: Route<R>) -> bool {
    if h.family == FrameFamily::Session.code_spec() {
        if h.msg_type == SessionMsg::RekeyInit.code_spec() {
            r is RekeyInit
        } else if h.msg_type == SessionMsg::RekeyAck.code_spec() {
            r is RekeyAck
        } else if h.msg_type == SessionMsg::RekeyKeptInit.code_spec() {
            r is RekeyKeptInit
        } else if h.msg_type == SessionMsg::MlKemRekeyEk.code_spec() {
            r is MlKemRekeyEk
        } else if h.msg_type == SessionMsg::MlKemRekeyAck.code_spec() {
            r is MlKemRekeyAck
        } else if h.msg_type == SessionMsg::Ticket.code_spec() {
            r is Ticket
        } else if h.msg_type == SessionMsg::HandoffInit.code_spec() {
            r is HandoffInit
        } else if h.msg_type == SessionMsg::HandoffAck.code_spec() {
            r is HandoffAck
        } else if h.msg_type == SessionMsg::TransportMigrationNotify.code_spec() {
            r is TransportMigrationNotify
        } else if h.msg_type == SessionMsg::RequestEphemeralEndpoint.code_spec() {
            r is RequestEphemeralEndpoint
        } else if h.msg_type == SessionMsg::Padding.code_spec() || h.msg_type
            == SessionMsg::HandoffAttach.code_spec() {
            r is Drop
        } else {
            r is Dispatch
        }
    } else {
        r is Dispatch
    }
}

/// Whether a header is that of a possible answer to a request.
pub open spec fn may_answer(h: FrameHeader) -> bool {
    &&& h.family == FrameFamily::Discovery.code_spec()
    &&& exists|m: DiscoveryMsg| #[trigger] m.code_spec() == h.msg_type
}

/// Whether a header is that of the answer to a keepalive.
pub open spec fn is_keepalive_ack(h: FrameHeader) -> bool {
    h.family == FrameFamily::Control.code_spec() && h.msg_type
        == ControlMsg::KeepaliveAck.code_spec()
}

/// Whether a header is that of a genuine frame: any but a keepalive, the answer to
/// one, and padding. The others only show that the line is open.
pub open spec fn is_genuine(h: FrameHeader) -> bool {
    &&& !(h.family == FrameFamily::Control.code_spec() && h.msg_type
        == ControlMsg::Keepalive.code_spec())
    &&& !is_keepalive_ack(h)
    &&& !(h.family == FrameFamily::Session.code_spec() && h.msg_type
        == SessionMsg::Padding.code_spec())
}

fn carries_data(h: &FrameHeader) -> (b: bool)
    ensures
        b == is_genuine(*h),
{
    if h.family == FrameFamily::Control.code() {
        h.msg_type != ControlMsg::Keepalive.code() && h.msg_type != ControlMsg::KeepaliveAck.code()
    } else {
        h.family != FrameFamily::Session.code() || h.msg_type != SessionMsg::Padding.code()
    }
}

/// What is known of the peer after a frame with a header was read at `now`: a
/// genuine one is a sign of life, and the answer to a keepalive ends the suspicion
/// that what we send is lost.
pub open spec fn after_frame(l: Liveness, h: FrameHeader, now: Instant) -> Liveness {
    if is_keepalive_ack(h) {
        l.episode_over()
    } else if is_genuine(h) {
        l.after_genuine(now)
    } else {
        l
    }
}

impl<K, R> SessionRunner<K, R> {
    /// Whether spans up to `now` can be counted.
    pub open spec fn in_range(self, now: Instant) -> bool {
        &&& now.has_room()
        &&& self.liveness.in_range(now)
        &&& self.pending.sound()
    }

    /// A session that starts at `now` after its handshake. The waits until the
    /// first keepalive and cover frame and the lifetime of the connection are drawn
    /// outside.
    pub fn new(
        peer_id: [u8; 32],
        local_node_id: [u8; 32],
        session_id: [u8; 32],
        crypto: CryptoState,
        config: RunnerConfig,
        raw_session_keys: Option<SessionKeys>,
        now: Instant,
        keepalive_wait: Duration,
        cover_wait: Duration,
        lifetime: Option<Duration>,
    ) -> (r: SessionRunner<K, R>)
        requires
            now.has_room(),
        ensures
            r.in_range(now),
            r.peer_id == peer_id,
            r.local_node_id == local_node_id,
            r.session_id == session_id,
            r.crypto == crypto,
            r.raw_session_keys == raw_session_keys,
            r.max_frame_body == config.max_frame_body,
            r.rekey.config == config.rekey,
            r.rekey.bytes_since_rekey == 0,
            r.rekey.last_rekey_at == now,
            r.rekey.pending is None,
            r.grace.entries@.len() == 0,
            r.mlkem == (MlKemRekeyContext {
                bytes_threshold: config.mlkem_bytes_threshold,
                time_threshold_secs: config.mlkem_time_threshold_secs,
                bytes_since_rekey: 0,
                last_rekey_at: now,
                pending: None,
            }),
            r.liveness.probe_timeout == config.keepalive_interval,
            r.liveness.timers.keepalive_interval == config.keepalive_interval,
            r.liveness.timers.idle_timeout == config.idle_timeout,
            r.liveness.timers.last_rx == now,
            r.liveness.timers.last_genuine_rx == now,
            r.liveness.timers.next_keepalive@ == now@ + keepalive_wait@,
            r.liveness.timers.next_cover@ == now@ + cover_wait@,
            r.liveness.timer_enabled == (config.keepalive_interval@ > 0 || config.idle_timeout@ > 0
                || lifetime is Some),
            r.pending.entries@.len() == 0,
            r.pending.capacity == config.max_pending_responses,
            r.pending.ttl == config.pending_response_ttl,
            r.bp_signal.last is None,
            r.bp_signal.cooldown@ == BP_SIGNAL_COOLDOWN_SECS * NANOS_PER_SEC,
            r.coalescer.last_drain == now,
            r.rotation.deadline is Some == lifetime is Some,
            r.rotation.deadline matches Some(t) ==> t@ == now@ + lifetime->0@,
            r.battery_check@ == now@ + BATTERY_CHECK_INTERVAL_SECS * NANOS_PER_SEC,
            r.write_errors@.count == 0,
            r.write_errors@.threshold == config.auto_trigger_after_write_errors,
    {
        SessionRunner {
            peer_id,
            local_node_id,
            session_id,
            crypto,
            rekey: RekeyContext::new(config.rekey, now),
            grace: RekeyRxGraceBuffer::new(),
            mlkem: MlKemRekeyContext::new(
                config.mlkem_bytes_threshold,
                config.mlkem_time_threshold_secs,
                now,
            ),
            liveness: Liveness::new(
                config.keepalive_interval,
                config.idle_timeout,
                lifetime.is_some(),
                now,
                keepalive_wait,
                cover_wait,
            ),
            pending: PendingResponseTable::new(
                config.max_pending_responses,
                config.pending_response_ttl,
            ),
            bp_signal: BackpressureSignal::new(Duration::from_secs(BP_SIGNAL_COOLDOWN_SECS)),
            coalescer: OutboundBatchCoalescer::new(now),
            rotation: SessionRotationDeadline::compute(now, lifetime),
            battery_check: now.plus(Duration::from_secs(BATTERY_CHECK_INTERVAL_SECS)),
            write_errors: WriteErrorTracker::new(config.auto_trigger_after_write_errors),
            max_frame_body: config.max_frame_body,
            raw_session_keys,
        }
    }

    /// The frames that a tick queues, in their order.
    pub open spec fn ticks_frames(t: Tick, frames: Seq<(u8, Vec<u8>)>) -> bool {
        match t {
            Tick::Close(_) => frames.len() == 0,
            Tick::Proceed { cover, keepalive, .. } => {
                let n: int = if cover {
                    1
                } else {
                    0
                };
                let m: int = if keepalive {
                    1
                } else {
                    0
                };
                &&& frames.len() == n + m
                &&& cover ==> frames[0].0 == BACKGROUND && is_cover_frame(frames[0].1@)
                &&& keepalive ==> frames[n].0 == INTERACTIVE && frames[n].1@ == keepalive_frame()
            },
        }
    }

    /// Handles a tick at `now`: the session may be over; cover frames and
    /// keepalives may be due; retired ciphers whose grace is over are dropped. What
    /// the session sends itself never counts as activity of the peer.
    pub fn tick(&mut self, now: Instant, keepalive_wait: Duration, cover_wait: Duration) -> (plan:
        TickPlan)
        requires
            old(self).in_range(now),
        ensures
            ({
                let sealed = old(self).crypto.tx_cipher is Some;
                let t = old(self).liveness.tick_at(now, sealed);
                &&& Self::ticks_frames(t, plan.frames@)
                &&& match t {
                    Tick::Close(why) => plan.close == Some(why) && !plan.stalled && plan.probe
                        == ProbeStage::Quiet,
                    Tick::Proceed { stalled, cover, keepalive, probe } => plan.close is None
                        && plan.stalled == stalled && plan.probe == probe,
                }
                &&& t is Close || !old(self).liveness.timer_enabled ==> final(self).liveness == old(
                    self,
                ).liveness
                &&& t is Proceed && old(self).liveness.timer_enabled ==> old(
                    self,
                ).liveness.ticked(
                    now,
                    sealed,
                    keepalive_wait@,
                    cover_wait@,
                    final(self).liveness,
                )
                &&& final(self).grace.entries@ == if t is Proceed && old(
                    self,
                ).liveness.timer_enabled {
                    kept(old(self).grace.entries@, now)
                } else {
                    old(self).grace.entries@
                }
                &&& *final(self) == (SessionRunner {
                    liveness: final(self).liveness,
                    grace: final(self).grace,
                    ..*old(self)
                })
            }),
            final(self).liveness.timers.last_rx == old(self).liveness.timers.last_rx,
            final(self).liveness.timers.last_genuine_rx == old(
                self,
            ).liveness.timers.last_genuine_rx,
            final(self).in_range(now),
    {
        let mut frames: Vec<(u8, Vec<u8>)> = Vec::new();
        let enabled: bool = self.liveness.timer_enabled;
        let sealed: bool = self.crypto.tx_cipher.is_some();
        match self.liveness.tick(now, sealed, keepalive_wait, cover_wait) {
            Tick::Close(why) => TickPlan {
                close: Some(why),
                stalled: false,
                frames,
                probe: ProbeStage::Quiet,
            },
            Tick::Proceed { stalled, cover, keepalive, probe } => {
                if enabled {
                    self.grace.prune_expired(now);
                }
                if cover {
                    frames.push((BACKGROUND, build_cover_frame()));
                }
                if keepalive {
                    frames.push((INTERACTIVE, build_control_frame(ControlMsg::Keepalive)));
                }
                TickPlan { close: None, stalled, frames, probe }
            },
        }
    }

    /// Counts a failed write, and says whether another transport is to be tried.
    pub fn on_primary_write_error(&mut self) -> (fire: bool)
        ensures
            final(self).write_errors@ == old(self).write_errors@.failed(),
            fire == old(self).write_errors@.failed().reached(),
            *final(self) == (SessionRunner {
                write_errors: final(self).write_errors,
                ..*old(self)
            }),
    {
        match self.write_errors.on_error() {
            TriggerFire::Yes => true,
            TriggerFire::No => false,
        }
    }

    /// Sends frames that were taken from the queue and for which leave was given:
    /// sealed into one write once the session is encrypted, else each as it is. What
    /// was sent is counted towards the next rekey.
    pub fn flush(&mut self, frames: &Vec<Vec<u8>>, padding: bool, wire: &mut WireOutbox, now: Instant) -> (r:
        FlushOutcome)
        requires
            frames@.len() > 0,
            old(self).crypto.tx_cipher is None ==> plain_bytes(frames@) <= u64::MAX,
        ensures
            r matches FlushOutcome::Queued(n) ==> {
                &&& final(self).rekey == old(self).rekey.counted(n as int)
                &&& final(self).mlkem == old(self).mlkem.counted(n as int)
                &&& final(self).coalescer.last_drain == now
            },
            !(r is Queued) ==> {
                &&& *final(wire) == *old(wire)
                &&& final(self).rekey == old(self).rekey
                &&& final(self).mlkem == old(self).mlkem
                &&& final(self).coalescer == old(self).coalescer
            },
            final(self).crypto.rx_cipher == old(self).crypto.rx_cipher,
            *final(self) == (SessionRunner {
                crypto: final(self).crypto,
                rekey: final(self).rekey,
                mlkem: final(self).mlkem,
                coalescer: final(self).coalescer,
                ..*old(self)
            }),
            match old(self).crypto.tx_cipher {
                None => {
                    &&& final(self).crypto == old(self).crypto
                    &&& flushes_plain(frames@, *old(wire), r, *final(wire))
                },
                Some(c) => {
                    &&& final(self).crypto.tx_cipher is Some
                    &&& flushes_sealed(
                        frames@,
                        c,
                        padding,
                        *old(wire),
                        r,
                        final(self).crypto.tx_cipher->0,
                        *final(wire),
                    )
                },
            },
    {
        let r: FlushOutcome = match &mut self.crypto.tx_cipher {
            None => flush_plain(frames, wire),
            Some(c) => flush_sealed(frames, c, padding, wire),
        };
        match r {
            FlushOutcome::Queued(n) => {
                self.rekey.record_bytes(n);
                self.mlkem.record_bytes(n);
                self.coalescer.record_drain(now);
            },
            _ => {},
        }
        r
    }

    /// The pending requests after one was added at `now`: those that waited too
    /// long are gone, and so is the one that waited longest when there would be too
    /// many.
    pub open spec fn request_added(
        before: PendingResponseTable<R>,
        request_id: u64,
        reply_to: R,
        now: Instant,
        after: PendingResponseTable<R>,
    ) -> bool {
        let fresh = unexpired(before.entries@, now, before.ttl@);
        let entry = PendingResponse { request_id, since: now, reply_to };
        &&& after.capacity == before.capacity
        &&& after.ttl == before.ttl
        &&& if fresh.len() >= before.capacity && fresh.len() > 0 {
            exists|i: int| #[trigger]
                waited_longest(fresh, i) && after.entries@ == without(
                    fresh.remove(i),
                    request_id,
                ).push(entry)
        } else {
            after.entries@ == without(fresh, request_id).push(entry)
        }
    }

    /// Handles the next input at `now`.
    pub fn on_input(&mut self, input: NextInput<R>, now: Instant) -> (a: InputAction)
        requires
            old(self).in_range(now),
        ensures
            match input {
                NextInput::Byte(b) => {
                    &&& a == InputAction::ReadFrame(b)
                    &&& *final(self) == (SessionRunner {
                        liveness: old(self).liveness.after_byte(now),
                        ..*old(self)
                    })
                },
                NextInput::OutboxFrame(p, f) => {
                    &&& a == InputAction::Enqueue(p, f)
                    &&& *final(self) == *old(self)
                },
                NextInput::RpcRequest { request_id, frame, reply_to } => {
                    &&& a == InputAction::Enqueue(INTERACTIVE, frame)
                    &&& Self::request_added(
                        old(self).pending,
                        request_id,
                        reply_to,
                        now,
                        final(self).pending,
                    )
                    &&& *final(self) == (SessionRunner {
                        pending: final(self).pending,
                        ..*old(self)
                    })
                },
                NextInput::Timer => if old(self).rotation.due(now) {
                    &&& a == InputAction::Rotate
                    &&& *final(self) == *old(self)
                } else {
                    let due = now@ >= old(self).battery_check@;
                    &&& a == (InputAction::Resume { check_battery: due })
                    &&& final(self).pending.entries@ == unexpired(
                        old(self).pending.entries@,
                        now,
                        old(self).pending.ttl@,
                    )
                    &&& final(self).pending.capacity == old(self).pending.capacity
                    &&& final(self).pending.ttl == old(self).pending.ttl
                    &&& final(self).battery_check@ == if due {
                        now@ + BATTERY_CHECK_INTERVAL_SECS * NANOS_PER_SEC
                    } else {
                        old(self).battery_check@ as int
                    }
                    &&& *final(self) == (SessionRunner {
                        pending: final(self).pending,
                        battery_check: final(self).battery_check,
                        ..*old(self)
                    })
                },
                NextInput::SwapStream => {
                    &&& a == (InputAction::Resume { check_battery: false })
                    &&& *final(self) == (SessionRunner {
                        liveness: old(self).liveness.after_swap(now),
                        ..*old(self)
                    })
                },
                NextInput::ReadClosed => {
                    &&& a == InputAction::Close(None)
                    &&& *final(self) == *old(self)
                },
                NextInput::WriterClosed => {
                    &&& a == InputAction::Close(Some(TriggerReason::WriterClosed))
                    &&& *final(self) == *old(self)
                },
            },
            final(self).in_range(now),
    {
        match input {
            NextInput::Byte(b) => {
                self.liveness.note_byte(now);
                InputAction::ReadFrame(b)
            },
            NextInput::OutboxFrame(p, f) => InputAction::Enqueue(p, f),
            NextInput::RpcRequest { request_id, frame, reply_to } => {
                self.pending.evict_expired(now);
                self.pending.evict_oldest_if_at_capacity();
                self.pending.insert(request_id, reply_to, now);
                InputAction::Enqueue(INTERACTIVE, frame)
            },
            NextInput::Timer => {
                if self.rotation.is_due(now) {
                    return InputAction::Rotate;
                }
                self.pending.evict_expired(now);
                let due: bool = now.not_before(self.battery_check);
                if due {
                    self.battery_check = now.plus(
                        Duration::from_secs(BATTERY_CHECK_INTERVAL_SECS),
                    );
                }
                InputAction::Resume { check_battery: due }
            },
            NextInput::SwapStream => {
                self.liveness.note_swap(now);
                InputAction::Resume { check_battery: false }
            },
            NextInput::ReadClosed => InputAction::Close(None),
            NextInput::WriterClosed => InputAction::Close(Some(TriggerReason::WriterClosed)),
        }
    }

    /// Notes at `now` that a realtime frame is sent or was received, so that a path
    /// that went dead under a call is found out soon. `wait` is the keepalive interval
    /// of such a session, spread.
    pub fn note_realtime(&mut self, now: Instant, wait: Duration)
        requires
            now.has_room(),
        ensures
            old(self).liveness.timers.after_realtime(now, wait@, final(self).liveness.timers),
            *final(self) == (SessionRunner {
                liveness: Liveness {
                    timers: final(self).liveness.timers,
                    ..old(self).liveness
                },
                ..*old(self)
            }),
    {
        self.liveness.timers.note_realtime_activity(now, wait);
    }

    /// Notes at `now` that a frame of a priority was queued for sending.
    pub fn note_queued(&mut self, priority: u8, now: Instant, wait: Duration)
        requires
            now.has_room(),
        ensures
            priority != REALTIME ==> *final(self) == *old(self),
            priority == REALTIME ==> {
                &&& old(self).liveness.timers.after_realtime(
                    now,
                    wait@,
                    final(self).liveness.timers,
                )
                &&& *final(self) == (SessionRunner {
                    liveness: Liveness {
                        timers: final(self).liveness.timers,
                        ..old(self).liveness
                    },
                    ..*old(self)
                })
            },
    {
        if priority == REALTIME {
            self.note_realtime(now, wait);
        }
    }

    /// Goes on after the attempt to get a fresh connection at the end of a
    /// connection's lifetime. When it could be made, the session goes on for another
    /// lifetime; else it is over.
    pub fn after_rotation_attempt(&mut self, spawned: bool, now: Instant, lifetime: Option<Duration>) -> (over:
        bool)
        requires
            now.has_room(),
        ensures
            over == !spawned,
            over ==> *final(self) == *old(self),
            !over ==> {
                &&& final(self).rotation.deadline is Some == lifetime is Some
                &&& final(self).rotation.deadline matches Some(t) ==> t@ == now@ + lifetime->0@
                &&& *final(self) == (SessionRunner {
                    rotation: final(self).rotation,
                    ..*old(self)
                })
            },
    {
        if !spawned {
            return true;
        }
        self.rotation = SessionRotationDeadline::compute(now, lifetime);
        false
    }

    /// When a session that falls asleep at `now` has to wake at the latest, if nothing
    /// comes before: at the first moment that its clocks, its battery check, the end of
    /// the batching window or the end of its connection's lifetime ask for.
    pub fn wake_at(&self, coalesce_until: Option<Instant>, now: Instant) -> (at: Option<Instant>)
        requires
            self.liveness.timers.in_range(),
            self.liveness.probe.oldest matches Some(t) ==> t.has_room(),
        ensures
            at is Some,
            self.liveness.wakes_at(
                now,
                self.battery_check,
                coalesce_until,
                self.rotation.deadline,
                at->0@,
            ),
            forall|t: nat|
                #[trigger] self.liveness.wakes_at(
                    now,
                    self.battery_check,
                    coalesce_until,
                    self.rotation.deadline,
                    t,
                ) ==> at->0@ <= t,
    {
        compute_sleep_deadline(
            &self.liveness.timers,
            self.battery_check,
            self.liveness.timer_enabled,
            self.liveness.keepalive_enabled,
            self.liveness.probe_trigger.has_fired(),
            self.liveness.timers.effective_keepalive_probe_timeout(
                self.liveness.probe_timeout,
                now,
            ),
            self.liveness.probe.oldest(),
            self.liveness.stall_trigger.has_fired(),
            coalesce_until,
            self.rotation.deadline(),
        )
    }

    /// Reads a header. A bad one violates the protocol and ends the session.
    pub fn on_header(&self, bytes: &[u8]) -> (r: Result<FrameHeader, HeaderError>)
        ensures
            r == header_of(bytes@, self.max_frame_body),
    {
        decode_header_with_limit(bytes, self.max_frame_body)
    }

    /// What opening a body does: `r` is what `CryptoState::decrypted` says, and what
    /// was opened is counted towards the next rekey.
    pub open spec fn opens_body(
        self,
        header: FrameHeader,
        raw_body: Seq<u8>,
        now: Instant,
        r: Result<Seq<u8>, DecryptFailure>,
        after: Self,
    ) -> bool {
        let aad = aad_of(header.family, header.msg_type);
        &&& after == SessionRunner {
            crypto: after.crypto,
            grace: after.grace,
            rekey: after.rekey,
            mlkem: after.mlkem,
            ..self
        }
        &&& match r {
            Ok(body) => {
                &&& exists|o: DecryptInPlaceOutcome, raw_after: Seq<u8>|
                    {
                        &&& #[trigger] plaintext_of(o, raw_after) == body
                        &&& self.crypto.decrypted(
                            raw_body,
                            aad,
                            self.grace.entries@,
                            now,
                            Ok(o),
                            raw_after,
                            after.crypto,
                            after.grace.entries@,
                        )
                    }
                &&& after.rekey == self.rekey.counted((HEADER_SIZE + body.len()) as int)
                &&& after.mlkem == self.mlkem.counted((HEADER_SIZE + body.len()) as int)
            },
            Err(e) => {
                &&& exists|raw_after: Seq<u8>| #[trigger]
                    self.crypto.decrypted(
                        raw_body,
                        aad,
                        self.grace.entries@,
                        now,
                        Err(e),
                        raw_after,
                        after.crypto,
                        after.grace.entries@,
                    )
                &&& after.rekey == self.rekey
                &&& after.mlkem == self.mlkem
            },
        }
    }

    /// What routing a frame does: an answer that is waited for goes to its request
    /// and no longer counts as pending, any other frame goes where its header says,
    /// and what the frame shows of the peer is noted.
    pub open spec fn routes_frame(
        self,
        header: FrameHeader,
        now: Instant,
        r: Route<R>,
        after: Self,
    ) -> bool {
        let found = position(self.pending.entries@, header.request_id);
        &&& after == SessionRunner { liveness: after.liveness, pending: after.pending, ..self }
        &&& after.liveness == after_frame(self.liveness, header, now)
        &&& after.pending.capacity == self.pending.capacity
        &&& after.pending.ttl == self.pending.ttl
        &&& if may_answer(header) && found is Some {
            &&& r matches Route::Answer(x) && x == self.pending.entries@[found->0].reply_to
            &&& after.pending.entries@ == without(self.pending.entries@, header.request_id)
        } else {
            &&& route_of(header, r)
            &&& after.pending.entries@ == self.pending.entries@
        }
    }

    /// Opens a body that was read whole. What came in is counted towards the next
    /// rekey.
    pub fn on_body(&mut self, header: &FrameHeader, raw_body: Vec<u8>, now: Instant) -> (r: Result<
        Vec<u8>,
        DecryptFailure,
    >)
        requires
            raw_body@.len() + HEADER_SIZE <= u64::MAX,
        ensures
            old(self).opens_body(
                *header,
                raw_body@,
                now,
                match r {
                    Ok(body) => Ok(body@),
                    Err(e) => Err(e),
                },
                *final(self),
            ),
    {
        let mut raw: Vec<u8> = raw_body;
        let outcome = self.crypto.decrypt_frame_body_in_place(
            &mut raw,
            header.family,
            header.msg_type,
            &mut self.grace,
            now,
        );
        match outcome {
            Err(e) => Err(e),
            Ok(o) => {
                let ghost raw_after = raw@;
                let ghost whole = o;
                let body: Vec<u8> = match o {
                    DecryptInPlaceOutcome::GracePlaintext(p) => p,
                    _ => raw,
                };
                assert(plaintext_of(whole, raw_after) == body@);
                let n: u64 = (body.len() as u64).saturating_add(HEADER_SIZE as u64);
                self.rekey.record_bytes(n);
                self.mlkem.record_bytes(n);
                Ok(body)
            },
        }
    }

    /// Routes a frame that was read at `now`. The answer to a keepalive shows that
    /// what we send arrives; it goes to the dispatcher like any other frame. An answer
    /// to one of our requests goes to where it is waited for, and nowhere else.
    pub fn route(&mut self, header: &FrameHeader, now: Instant) -> (r: Route<R>)
        requires
            old(self).pending.sound(),
        ensures
            old(self).routes_frame(*header, now, r, *final(self)),
            final(self).pending.sound(),
    {
        if carries_data(header) {
            self.liveness.note_genuine_frame(now);
        }
        if header.family == FrameFamily::Session.code() {
            return match SessionMsg::from_code(header.msg_type) {
                Some(SessionMsg::RekeyInit) => Route::RekeyInit,
                Some(SessionMsg::RekeyAck) => Route::RekeyAck,
                Some(SessionMsg::RekeyKeptInit) => Route::RekeyKeptInit,
                Some(SessionMsg::MlKemRekeyEk) => Route::MlKemRekeyEk,
                Some(SessionMsg::MlKemRekeyAck) => Route::MlKemRekeyAck,
                Some(SessionMsg::Ticket) => Route::Ticket,
                Some(SessionMsg::Padding) => Route::Drop,
                Some(SessionMsg::HandoffInit) => Route::HandoffInit,
                Some(SessionMsg::HandoffAck) => Route::HandoffAck,
                Some(SessionMsg::HandoffAttach) => Route::Drop,
                Some(SessionMsg::TransportMigrationNotify) => Route::TransportMigrationNotify,
                Some(SessionMsg::RequestEphemeralEndpoint) => Route::RequestEphemeralEndpoint,
                Some(_) => Route::Dispatch,
                None => {
                    assert(SessionMsg::RekeyInit.code_spec() != header.msg_type);
                    assert(SessionMsg::RekeyAck.code_spec() != header.msg_type);
                    assert(SessionMsg::RekeyKeptInit.code_spec() != header.msg_type);
                    assert(SessionMsg::MlKemRekeyEk.code_spec() != header.msg_type);
                    assert(SessionMsg::MlKemRekeyAck.code_spec() != header.msg_type);
                    assert(SessionMsg::Ticket.code_spec() != header.msg_type);
                    assert(SessionMsg::Padding.code_spec() != header.msg_type);
                    assert(SessionMsg::HandoffInit.code_spec() != header.msg_type);
                    assert(SessionMsg::HandoffAck.code_spec() != header.msg_type);
                    assert(SessionMsg::HandoffAttach.code_spec() != header.msg_type);
                    assert(SessionMsg::TransportMigrationNotify.code_spec() != header.msg_type);
                    assert(SessionMsg::RequestEphemeralEndpoint.code_spec() != header.msg_type);
                    Route::Dispatch
                },
            };
        }
        if header.family == FrameFamily::Control.code() && header.msg_type
            == ControlMsg::KeepaliveAck.code() {
            self.liveness.note_keepalive_ack();
        }
        if header.family == FrameFamily::Discovery.code() && DiscoveryMsg::is_response(
            header.msg_type,
        ) {
            match self.pending.take(header.request_id) {
                Some(x) => {
                    return Route::Answer(x);
                },
                None => {},
            }
        }
        Route::Dispatch
    }

    /// Opens a body that was read whole and says where the frame goes. A body that
    /// does not open is never routed.
    pub fn on_frame(&mut self, header: &FrameHeader, raw_body: Vec<u8>, now: Instant) -> (r: Result<
        (Vec<u8>, Route<R>),
        DecryptFailure,
    >)
        requires
            raw_body@.len() + HEADER_SIZE <= u64::MAX,
            old(self).pending.sound(),
        ensures
            match r {
                Ok((body, route)) => {
                    let opened = SessionRunner {
                        liveness: old(self).liveness,
                        pending: old(self).pending,
                        ..*final(self)
                    };
                    &&& old(self).opens_body(*header, raw_body@, now, Ok(body@), opened)
                    &&& opened.routes_frame(*header, now, route, *final(self))
                },
                Err(e) => old(self).opens_body(*header, raw_body@, now, Err(e), *final(self)),
            },
            final(self).pending.sound(),
            old(self).in_range(now) ==> final(self).in_range(now),
    {
        match self.on_body(header, raw_body, now) {
            Err(e) => Err(e),
            Ok(body) => {
                let route: Route<R> = self.route(header, now);
                Ok((body, route))
            },
        }
    }

    /// What to ask for before a response of `len` bytes is sent. Nothing is sealed
    /// unless the writer has a slot and leave was given: a frame that is sealed and
    /// not sent would put the two ends out of step.
    pub fn response_plan(&self, len: usize, slots: usize) -> (p: ResponsePlan)
        ensures
            p == if slots == 0 {
                ResponsePlan::Skip
            } else if self.crypto.tx_cipher is None {
                ResponsePlan::AskLeave(len)
            } else if len + AEAD_OVERHEAD <= usize::MAX {
                ResponsePlan::AskLeave((len + AEAD_OVERHEAD) as usize)
            } else {
                ResponsePlan::Close
            },
    {
        if slots == 0 {
            return ResponsePlan::Skip;
        }
        if self.crypto.tx_cipher.is_none() {
            return ResponsePlan::AskLeave(len);
        }
        match encrypted_wire_len(len) {
            Some(n) => ResponsePlan::AskLeave(n),
            None => ResponsePlan::Close,
        }
    }

    /// What a frame becomes on the wire next.
    pub open spec fn sends(self, frame: Seq<u8>) -> Option<Seq<u8>> {
        match self.crypto.tx_cipher {
            Some(c) => wire_of(frame, c.key(), c.frames()),
            None => Some(frame),
        }
    }

    /// Whether `after` has the counters of a session that put `frame` on the wire:
    /// sealing uses up one number, and what is too short for a header is not sealed.
    pub open spec fn counted_frame(self, frame: Seq<u8>, after: CryptoState) -> bool {
        match self.crypto.tx_cipher {
            None => after == self.crypto,
            Some(c) => if frame.len() < HEADER_SIZE {
                after == self.crypto
            } else {
                &&& after.tx_cipher is Some
                &&& c.advanced_to(after.tx_cipher->0)
                &&& after.rx_cipher == self.crypto.rx_cipher
            },
        }
    }

    /// Prepares a frame for the wire: sealed when the session is encrypted, else
    /// as it is.
    fn prepare(&mut self, frame: Vec<u8>) -> (r: Option<Vec<u8>>)
        ensures
            r is Some == old(self).sends(frame@) is Some,
            r matches Some(w) ==> old(self).sends(frame@) == Some(w@),
            final(self).crypto.rx_cipher == old(self).crypto.rx_cipher,
            *final(self) == (SessionRunner { crypto: final(self).crypto, ..*old(self) }),
            r is None ==> *final(self) == *old(self),
            r is Some ==> old(self).counted_frame(frame@, final(self).crypto),
    {
        match &mut self.crypto.tx_cipher {
            Some(c) => apply_tx_cipher(frame.as_slice(), c),
            None => Some(frame),
        }
    }

    /// Whether the session and the writer are as before.
    pub open spec fn untouched(self, wire: WireOutbox, after: Self, wire_after: WireOutbox) -> bool {
        after == self && wire_after == wire
    }

    /// Handles what the dispatcher made of a frame at `now`. `leave` is the answer
    /// to what `response_plan` asked for; `solver_free` says whether a puzzle can be
    /// solved.
    ///
    /// A response is dropped, not sealed, when the writer has no slot or no leave is
    /// given. Congestion is signalled at most once per cooldown, and only when the
    /// writer has a slot; it is never a violation.
    pub fn process_dispatch_result(
        &mut self,
        result: DispatchResult,
        leave: bool,
        solver_free: bool,
        budget: &mut PowBudget,
        wire: &mut WireOutbox,
        now: Instant,
    ) -> (o: DispatchOutcome)
        requires
            old(budget).sound(),
        ensures
            final(budget).sound(),
            final(self).crypto.rx_cipher == old(self).crypto.rx_cipher,
            *final(self) == (SessionRunner {
                crypto: final(self).crypto,
                rekey: final(self).rekey,
                mlkem: final(self).mlkem,
                bp_signal: final(self).bp_signal,
                ..*old(self)
            }),
            match result {
                DispatchResult::Response(bytes) => {
                    let too_long = old(self).crypto.tx_cipher is Some && bytes@.len()
                        + AEAD_OVERHEAD > usize::MAX;
                    &&& *final(budget) == *old(budget)
                    &&& final(self).bp_signal == old(self).bp_signal
                    &&& if old(wire).slots == 0 {
                        o is Continue && old(self).untouched(*old(wire), *final(self), *final(wire))
                    } else if too_long {
                        o is Close && old(self).untouched(*old(wire), *final(self), *final(wire))
                    } else if !leave {
                        o is Continue && old(self).untouched(*old(wire), *final(self), *final(wire))
                    } else {
                        match old(self).sends(bytes@) {
                            None => o is Close && old(self).untouched(
                                *old(wire),
                                *final(self),
                                *final(wire),
                            ),
                            Some(w) => {
                                &&& old(self).counted_frame(bytes@, final(self).crypto)
                                &&& final(self).rekey == old(self).rekey.counted(w.len() as int)
                                &&& final(self).mlkem == old(self).mlkem.counted(w.len() as int)
                                &&& if old(wire).closed {
                                    o is WriteFailed && *final(wire) == *old(wire)
                                } else {
                                    o is Continue && old(wire).grown_by(w, *final(wire))
                                }
                            },
                        }
                    }
                },
                DispatchResult::NoResponse | DispatchResult::NotHandled => {
                    &&& o is Continue
                    &&& *final(budget) == *old(budget)
                    &&& old(self).untouched(*old(wire), *final(self), *final(wire))
                },
                DispatchResult::Violation(reason) => {
                    &&& o == DispatchOutcome::Violation(reason)
                    &&& *final(budget) == *old(budget)
                    &&& old(self).untouched(*old(wire), *final(self), *final(wire))
                },
                DispatchResult::RateLimited => {
                    &&& *final(budget) == *old(budget)
                    &&& final(self).rekey == old(self).rekey
                    &&& final(self).mlkem == old(self).mlkem
                    &&& final(self).bp_signal == if old(self).bp_signal.ready(now) {
                        BackpressureSignal { last: Some(now), ..old(self).bp_signal }
                    } else {
                        old(self).bp_signal
                    }
                    &&& if !old(self).bp_signal.ready(now) || old(wire).slots == 0 {
                        &&& o is Continue
                        &&& final(self).crypto == old(self).crypto
                        &&& *final(wire) == *old(wire)
                    } else {
                        match old(self).sends(backpressure_frame()) {
                            None => {
                                &&& o is Close
                                &&& final(self).crypto == old(self).crypto
                                &&& *final(wire) == *old(wire)
                            },
                            Some(w) => {
                                &&& o is Continue
                                &&& old(self).counted_frame(
                                    backpressure_frame(),
                                    final(self).crypto,
                                )
                                &&& if old(wire).closed {
                                    *final(wire) == *old(wire)
                                } else {
                                    old(wire).grown_by(w, *final(wire))
                                }
                            },
                        }
                    }
                },
                DispatchResult::SolvePow(difficulty) => {
                    let fits = solver_free && old(budget).active + difficulty <= old(budget).limit;
                    &&& old(self).untouched(*old(wire), *final(self), *final(wire))
                    &&& final(budget).limit == old(budget).limit
                    &&& if fits {
                        &&& o matches DispatchOutcome::Solve(g) && g.difficulty == difficulty
                        &&& final(budget).active == old(budget).active + difficulty
                    } else {
                        o is Continue && *final(budget) == *old(budget)
                    }
                },
            },
    {
        match result {
            DispatchResult::Response(bytes) => {
                match self.response_plan(bytes.len(), wire.slots) {
                    ResponsePlan::Skip => DispatchOutcome::Continue,
                    ResponsePlan::Close => DispatchOutcome::Close,
                    ResponsePlan::AskLeave(_) => {
                        if !leave {
                            return DispatchOutcome::Continue;
                        }
                        match self.prepare(bytes) {
                            None => DispatchOutcome::Close,
                            Some(w) => {
                                let n: u64 = w.len() as u64;
                                self.rekey.record_bytes(n);
                                self.mlkem.record_bytes(n);
                                match wire.push_wire(w) {
                                    Ok(()) => DispatchOutcome::Continue,
                                    Err(_) => DispatchOutcome::WriteFailed,
                                }
                            },
                        }
                    },
                }
            },
            DispatchResult::NoResponse => DispatchOutcome::Continue,
            DispatchResult::NotHandled => DispatchOutcome::Continue,
            DispatchResult::Violation(reason) => DispatchOutcome::Violation(reason),
            DispatchResult::RateLimited => {
                if !self.bp_signal.try_arm(now) {
                    return DispatchOutcome::Continue;
                }
                if wire.slots == 0 {
                    return DispatchOutcome::Continue;
                }
                let frame: Vec<u8> = build_control_frame(ControlMsg::Backpressure);
                match self.prepare(frame) {
                    None => DispatchOutcome::Close,
                    Some(w) => {
                        let _ = wire.push_wire(w);
                        DispatchOutcome::Continue
                    },
                }
            },
            DispatchResult::SolvePow(difficulty) => {
                match accept_challenge(budget, solver_free, difficulty) {
                    Some(g) => DispatchOutcome::Solve(g),
                    None => DispatchOutcome::Continue,
                }
            },
        }
    }
}

/// A receiver that is in step with the sender reads from a write just what the
/// sender put into it: the first frame opens to its body, and the receiver is then
/// in step for the rest of the write.
pub proof fn receiver_reads_the_next_frame(
    write: Seq<u8>,
    crypto: CryptoState,
    grace: Seq<GraceEntry>,
    now: Instant,
    r: Result<DecryptInPlaceOutcome, DecryptFailure>,
    raw_after: Seq<u8>,
    after: CryptoState,
    grace_after: Seq<GraceEntry>,
)
    requires
        crypto.rx_cipher is Some,
        write.len() > 0,
        read_frames(
            write,
            crypto.rx_cipher->0.key(),
            crypto.rx_cipher->0.frames() as nat,
        ) is Some,
        ({
            let h = header_of(write, MAX_FRAME_BODY)->Ok_0;
            &&& h.body_len > 0
            &&& crypto.decrypted(
                write.subrange(HEADER_SIZE as int, HEADER_SIZE + h.body_len),
                aad_of(h.family, h.msg_type),
                grace,
                now,
                r,
                raw_after,
                after,
                grace_after,
            )
        }),
    ensures
        ({
            let all = read_frames(
                write,
                crypto.rx_cipher->0.key(),
                crypto.rx_cipher->0.frames() as nat,
            )->0;
            let h = header_of(write, MAX_FRAME_BODY)->Ok_0;
            &&& header_of(write, MAX_FRAME_BODY) is Ok
            &&& r == Ok::<DecryptInPlaceOutcome, DecryptFailure>(DecryptInPlaceOutcome::InPlace)
            &&& all.len() > 0
            &&& all[0] == (h, raw_after)
            &&& after.rx_cipher is Some
            &&& read_frames(
                write.subrange(HEADER_SIZE + h.body_len, write.len() as int),
                after.rx_cipher->0.key(),
                after.rx_cipher->0.frames() as nat,
            ) == Some(all.drop_first())
        }),
{
    reveal(read_frames);
    let c = crypto.rx_cipher->0;
    let all = read_frames(write, c.key(), c.frames() as nat)->0;
    let h = header_of(write, MAX_FRAME_BODY)->Ok_0;
    let rest = read_frames(
        write.subrange(HEADER_SIZE + h.body_len, write.len() as int),
        c.key(),
        c.frames() as nat + 1,
    )->0;
    assert(all.drop_first() =~= rest);
}

/// What the sending side adds as padding never surfaces at the receiver: a padding
/// frame that was read goes nowhere.
pub proof fn padding_does_not_surface<R>(body: Seq<u8>, r: Route<R>)
    requires
        body.len() <= MAX_FRAME_BODY,
        route_of(received(padding_frame(body)).0, r),
    ensures
        r is Drop,
{
    let h = FrameHeader::plain(
        FrameFamily::Session.code_spec(),
        SessionMsg::Padding.code_spec(),
        body.len() as u32,
    );
    header_reads_back(h, body, MAX_FRAME_BODY);
}

/// What is known of the peer after frames with the given headers came, each at its
/// moment.
pub open spec fn heard(l: Liveness, frames: Seq<(Instant, FrameHeader)>) -> Liveness
    decreases frames.len(),
{
    if frames.len() == 0 {
        l
    } else {
        let (at, h) = frames.last();
        after_frame(heard(l, frames.drop_last()).after_byte(at), h, at)
    }
}

/// Keepalives, their answers and padding keep the line from idling, but however many
/// of them come, the first tick at which no genuine frame has come for three idle
/// timeouts ends the session.
pub proof fn idle_chatter_is_no_sign_of_life(
    l: Liveness,
    frames: Seq<(Instant, FrameHeader)>,
    now: Instant,
    sealed: bool,
)
    requires
        forall|i: int| 0 <= i < frames.len() ==> !is_genuine((#[trigger] frames[i]).1),
    ensures
        frames.len() > 0 ==> heard(l, frames).timers.last_rx == frames.last().0,
        heard(l, frames).timers.last_genuine_rx == l.timers.last_genuine_rx,
        l.timer_enabled && l.ceiling_over(now) ==> heard(l, frames).tick_at(now, sealed) is Close,
{
    lemma_chatter(l, frames);
}

proof fn lemma_chatter(l: Liveness, frames: Seq<(Instant, FrameHeader)>)
    requires
        forall|i: int| 0 <= i < frames.len() ==> !is_genuine((#[trigger] frames[i]).1),
    ensures
        ({
            let after = heard(l, frames);
            &&& frames.len() > 0 ==> after.timers.last_rx == frames.last().0
            &&& after.timer_enabled == l.timer_enabled
            &&& after.timers == SessionTimers { last_rx: after.timers.last_rx, ..l.timers }
        }),
    decreases frames.len(),
{
    if frames.len() > 0 {
        let before = frames.drop_last();
        assert forall|i: int| 0 <= i < before.len() implies !is_genuine((#[trigger] before[i]).1) by {
            assert(before[i] == frames[i]);
        }
        lemma_chatter(l, before);
    }
}

/// While a cipher is in use, a frame without a tag ends the session, so nobody on
/// the way can forge a message with an empty body.
pub proof fn empty_body_is_never_read(
    crypto: CryptoState,
    aad: Seq<u8>,
    grace: Seq<GraceEntry>,
    now: Instant,
    r: Result<DecryptInPlaceOutcome, DecryptFailure>,
    raw_after: Seq<u8>,
    after: CryptoState,
    grace_after: Seq<GraceEntry>,
)
    requires
        crypto.rx_cipher is Some,
        crypto.decrypted(Seq::empty(), aad, grace, now, r, raw_after, after, grace_after),
    ensures
        r == Err::<DecryptInPlaceOutcome, DecryptFailure>(DecryptFailure::Unauthenticated),
        after == crypto,
{
}

/// No frame is lost but padding and an attachment, which has no place on an established
/// session. A frame of the session layer goes to the handler of its own message. A
/// frame of any other family goes to the request that waits for it or, where none
/// does, to the dispatcher; so does a session message that no handler takes.
pub proof fn no_frame_is_lost<K, R>(
    s: &mut SessionRunner<K, R>,
    h: &FrameHeader,
    now: Instant,
    r: Route<R>,
)
    requires
        call_ensures(SessionRunner::<K, R>::route, (s, h, now), r),
    ensures
        ({
            let own = h.family == FrameFamily::Session.code_spec();
            let found = exists|i: int|
                0 <= i < old(s).pending.entries@.len() && (
                #[trigger] old(s).pending.entries@[i]).request_id == h.request_id;
            let answers = h.family == FrameFamily::Discovery.code_spec() && (h.msg_type
                == DiscoveryMsg::FindValueResponse.code_spec() || h.msg_type
                == DiscoveryMsg::FindNodeV2Response.code_spec() || h.msg_type
                == DiscoveryMsg::ResolveTransportResponse.code_spec());
            &&& r is Drop <==> own && (h.msg_type == SessionMsg::Padding.code_spec() || h.msg_type
                == SessionMsg::HandoffAttach.code_spec())
            &&& r is Answer <==> answers && found
            &&& !own && !(answers && found) ==> r is Dispatch
            &&& r is RekeyInit <==> own && h.msg_type == SessionMsg::RekeyInit.code_spec()
            &&& r is RekeyAck <==> own && h.msg_type == SessionMsg::RekeyAck.code_spec()
            &&& r is RekeyKeptInit <==> own && h.msg_type == SessionMsg::RekeyKeptInit.code_spec()
            &&& r is MlKemRekeyEk <==> own && h.msg_type == SessionMsg::MlKemRekeyEk.code_spec()
            &&& r is MlKemRekeyAck <==> own && h.msg_type == SessionMsg::MlKemRekeyAck.code_spec()
            &&& r is Ticket <==> own && h.msg_type == SessionMsg::Ticket.code_spec()
            &&& r is HandoffInit <==> own && h.msg_type == SessionMsg::HandoffInit.code_spec()
            &&& r is HandoffAck <==> own && h.msg_type == SessionMsg::HandoffAck.code_spec()
            &&& r is TransportMigrationNotify <==> own && h.msg_type
                == SessionMsg::TransportMigrationNotify.code_spec()
            &&& r is RequestEphemeralEndpoint <==> own && h.msg_type
                == SessionMsg::RequestEphemeralEndpoint.code_spec()
        }),
{
    let entries = old(s).pending.entries@;
    lemma_position(entries, h.request_id);
    assert(DiscoveryMsg::FindValueResponse.code_spec() == 1);
    assert(DiscoveryMsg::FindNodeV2Response.code_spec() == 2);
    assert(DiscoveryMsg::ResolveTransportResponse.code_spec() == 3);
    match position(entries, h.request_id) {
        Some(i) => {
            assert(entries[i].request_id == h.request_id);
        },
        None => {},
    }
}

/// An answer goes to the request that has its number and to no other, once: that
/// request no longer waits, and all others still do. A frame that answers nothing
/// leaves the requests alone.
pub proof fn an_answer_ends_one_wait<K, R>(
    s: &mut SessionRunner<K, R>,
    h: &FrameHeader,
    now: Instant,
    r: Route<R>,
    e: PendingResponse<R>,
)
    requires
        old(s).pending.sound(),
        call_ensures(SessionRunner::<K, R>::route, (s, h, now), r),
        old(s).pending.entries@.contains(e),
    ensures
        !(r is Answer) ==> final(s).pending.entries@ == old(s).pending.entries@,
        r is Answer && e.request_id == h.request_id ==> r->Answer_0 == e.reply_to,
        r is Answer ==> forall|i: int|
            0 <= i < final(s).pending.entries@.len() ==> (
            #[trigger] final(s).pending.entries@[i]).request_id != h.request_id,
        e.request_id != h.request_id ==> final(s).pending.entries@.contains(e),
        final(s).pending.capacity == old(s).pending.capacity,
        final(s).pending.ttl == old(s).pending.ttl,
{
    let entries = old(s).pending.entries@;
    let after = final(s).pending.entries@;
    lemma_position(entries, h.request_id);
    let k = choose|k: int| 0 <= k < entries.len() && entries[k] == e;
    match position(entries, h.request_id) {
        Some(p) => {
            if r is Answer {
                if k != p {
                    assert(entries[k].request_id != entries[p].request_id);
                    assert(after[if k < p { k } else { k - 1 }] == e);
                }
                assert forall|i: int| 0 <= i < after.len() implies (
                #[trigger] after[i]).request_id != h.request_id by {
                    let from = if i < p { i } else { i + 1 };
                    assert(after[i] == entries[from]);
                    assert(entries[from].request_id != entries[p].request_id);
                }
            }
        },
        None => {},
    }
}

/// Every frame but a keepalive, the answer to one, and padding shows that the peer is
/// alive. Only the answer to a keepalive shows that what we send arrives, and only it
/// ends the suspicion that it does not. Reading a frame changes nothing else.
pub proof fn what_a_frame_shows<K, R>(
    s: &mut SessionRunner<K, R>,
    h: &FrameHeader,
    now: Instant,
    r: Route<R>,
)
    requires
        call_ensures(SessionRunner::<K, R>::route, (s, h, now), r),
    ensures
        ({
            let control = h.family == FrameFamily::Control.code_spec();
            let ack = control && h.msg_type == ControlMsg::KeepaliveAck.code_spec();
            let idle = ack || (control && h.msg_type == ControlMsg::Keepalive.code_spec()) || (
            h.family == FrameFamily::Session.code_spec() && h.msg_type
                == SessionMsg::Padding.code_spec());
            let before = old(s).liveness;
            let after = final(s).liveness;
            &&& !idle ==> after.timers.last_genuine_rx == now && after.timers.last_rx == now
            &&& idle ==> after.timers == before.timers
            &&& after.timers.next_keepalive == before.timers.next_keepalive
            &&& after.timers.next_cover == before.timers.next_cover
            &&& after.timers.last_realtime == before.timers.last_realtime
            &&& after.timers.idle_timeout == before.timers.idle_timeout
            &&& ack ==> after.probe.oldest is None && !after.probe_trigger.fired
                && after.swap_attempts == 0
            &&& !ack ==> after.probe == before.probe && after.probe_trigger
                == before.probe_trigger && after.swap_attempts == before.swap_attempts
            &&& after.stall_trigger == before.stall_trigger
            &&& final(s).crypto == old(s).crypto
            &&& final(s).session_id == old(s).session_id
            &&& final(s).rekey == old(s).rekey
            &&& final(s).mlkem == old(s).mlkem
            &&& final(s).grace == old(s).grace
            &&& final(s).rotation == old(s).rotation
            &&& final(s).write_errors == old(s).write_errors
        }),
{
}

/// A frame whose body does not open is not routed: nobody is answered, and it is no
/// sign of life. One that opens is routed by its header, whatever it says.
pub proof fn only_opened_frames_are_routed<K, R>(
    s: &mut SessionRunner<K, R>,
    h: &FrameHeader,
    raw: Vec<u8>,
    now: Instant,
    r: Result<(Vec<u8>, Route<R>), DecryptFailure>,
)
    requires
        call_ensures(SessionRunner::<K, R>::on_frame, (s, h, raw, now), r),
    ensures
        r is Err ==> final(s).liveness == old(s).liveness && final(s).pending == old(s).pending
            && final(s).rekey == old(s).rekey && final(s).mlkem == old(s).mlkem,
        old(s).crypto.rx_cipher is None ==> r is Ok && r->Ok_0.0@ == raw@,
        old(s).crypto.rx_cipher is Some && raw@.len() == 0 ==> r is Err && r->Err_0
            == DecryptFailure::Unauthenticated,
        old(s).crypto.rx_cipher is Some && raw@.len() > 0 && old(s).crypto.rx_cipher->0.frames() == u64::MAX ==> r is Err && r->Err_0
            == DecryptFailure::NonceOverflow,
        old(s).crypto.rx_cipher is Some && raw@.len() > 0 && old(s).crypto.rx_cipher->0.frames() < u64::MAX && old(s).crypto.rx_cipher->0.opens_to(
            raw@,
            aad_of(h.family, h.msg_type),
        ) is Some ==> {
            let c = old(s).crypto.rx_cipher->0;
            &&& r is Ok
            &&& Some(r->Ok_0.0@) == c.opens_to(raw@, aad_of(h.family, h.msg_type))
            &&& final(s).crypto.rx_cipher is Some
            &&& final(s).crypto.rx_cipher->0.key() == c.key()
            &&& final(s).crypto.rx_cipher->0.frames() == c.frames() + 1
        },
        final(s).crypto.tx_cipher == old(s).crypto.tx_cipher,
        r matches Ok((body, route)) ==> (h.family != FrameFamily::Session.code_spec()
            ==> route is Dispatch || route is Answer) && (h.family
            == FrameFamily::Session.code_spec() && h.msg_type == SessionMsg::Padding.code_spec()
            ==> route is Drop),
        r matches Ok((body, route)) ==> ({
            let n = old(s).rekey.bytes_since_rekey + HEADER_SIZE + body@.len();
            let m = old(s).mlkem.bytes_since_rekey + HEADER_SIZE + body@.len();
            &&& final(s).rekey.bytes_since_rekey == if n <= u64::MAX {
                n
            } else {
                u64::MAX as int
            }
            &&& final(s).mlkem.bytes_since_rekey == if m <= u64::MAX {
                m
            } else {
                u64::MAX as int
            }
        }),
        final(s).session_id == old(s).session_id,
        final(s).max_frame_body == old(s).max_frame_body,
{
}

/// What the first byte of a frame and a move to another transport show: the line is
/// active and a stall can be acted on again, but the peer has shown no sign of life. A
/// move forgets the keepalives that were not answered; a byte does not.
pub proof fn activity_is_no_sign_of_life<K, R>(
    s: &mut SessionRunner<K, R>,
    input: NextInput<R>,
    now: Instant,
    a: InputAction,
)
    requires
        call_ensures(SessionRunner::<K, R>::on_input, (s, input, now), a),
    ensures
        final(s).liveness.timers.last_genuine_rx == old(s).liveness.timers.last_genuine_rx,
        final(s).crypto == old(s).crypto,
        final(s).session_id == old(s).session_id,
        final(s).rekey == old(s).rekey,
        final(s).rotation == old(s).rotation,
        input is Byte ==> {
            &&& a == InputAction::ReadFrame(input->Byte_0)
            &&& final(s).liveness.timers.last_rx == now
            &&& !final(s).liveness.stall_trigger.fired
            &&& final(s).liveness.probe == old(s).liveness.probe
            &&& final(s).liveness.probe_trigger == old(s).liveness.probe_trigger
            &&& final(s).liveness.swap_attempts == old(s).liveness.swap_attempts
            &&& final(s).pending == old(s).pending
        },
        input is SwapStream ==> {
            &&& a == (InputAction::Resume { check_battery: false })
            &&& final(s).liveness.timers.last_rx == now
            &&& !final(s).liveness.stall_trigger.fired
            &&& final(s).liveness.probe.oldest is None
            &&& !final(s).liveness.probe_trigger.fired
            &&& final(s).liveness.swap_attempts == 0
            &&& final(s).pending == old(s).pending
        },
        !(input is Byte) && !(input is SwapStream) ==> final(s).liveness == old(s).liveness,
{
}

/// What is handed to a session to be sent is queued as it is, in its own class, and a
/// request in the class that answers a user; nothing is queued otherwise. The end of
/// the reading side ends the session as it is, the end of the writing side after
/// another transport was tried.
pub proof fn what_is_given_is_queued<K, R>(
    s: &mut SessionRunner<K, R>,
    input: NextInput<R>,
    now: Instant,
    a: InputAction,
)
    requires
        call_ensures(SessionRunner::<K, R>::on_input, (s, input, now), a),
    ensures
        a is Enqueue <==> input is OutboxFrame || input is RpcRequest,
        input is OutboxFrame ==> a == InputAction::Enqueue(
            input->OutboxFrame_0,
            input->OutboxFrame_1,
        ) && final(s).pending == old(s).pending,
        input is RpcRequest ==> a == InputAction::Enqueue(INTERACTIVE, input->frame),
        input is ReadClosed ==> a == InputAction::Close(None),
        input is WriterClosed ==> a == InputAction::Close(Some(TriggerReason::WriterClosed)),
        a is Close <==> input is ReadClosed || input is WriterClosed,
        a is ReadFrame <==> input is Byte,
{
}

/// A request that is sent waits for its answer from then on. The others wait on,
/// unless they have waited as long as is allowed, one has the same number, or they
/// were too many: then just one goes, and none that stays has waited longer.
pub proof fn a_request_waits<K, R>(
    s: &mut SessionRunner<K, R>,
    request_id: u64,
    frame: Vec<u8>,
    reply_to: R,
    now: Instant,
    a: InputAction,
    e: PendingResponse<R>,
)
    requires
        old(s).pending.sound(),
        call_ensures(
            SessionRunner::<K, R>::on_input,
            (s, NextInput::RpcRequest { request_id, frame, reply_to }, now),
            a,
        ),
        old(s).pending.entries@.contains(e),
        e.request_id != request_id,
        old(s).pending.ttl@ > 0,
    ensures
        final(s).pending.entries@.contains(PendingResponse { request_id, since: now, reply_to }),
        now@ >= e.since@ + old(s).pending.ttl@ ==> !final(s).pending.entries@.contains(e) || e
            == (PendingResponse { request_id, since: now, reply_to }),
        now@ < e.since@ + old(s).pending.ttl@ && old(s).pending.entries@.len() < old(s).pending.capacity ==> final(s).pending.entries@.contains(e),
        final(s).pending.capacity == old(s).pending.capacity,
        final(s).pending.ttl == old(s).pending.ttl,
{
    let before = old(s).pending.entries@;
    let ttl = old(s).pending.ttl@;
    let fresh = unexpired(before, now, ttl);
    let after = final(s).pending.entries@;
    let added = PendingResponse { request_id, since: now, reply_to };
    lemma_unexpired(before, now, ttl);
    lemma_unexpired_shorter(before, now, ttl);
    lemma_position(fresh, request_id);
    assert(after[after.len() - 1] == added);
    if fresh.len() >= old(s).pending.capacity && fresh.len() > 0 {
        let i = choose|i: int| #[trigger]
            waited_longest(fresh, i) && after == without(fresh.remove(i), request_id).push(added);
        lemma_position(fresh.remove(i), request_id);
        if after.contains(e) && e != added {
            let k = choose|k: int| 0 <= k < after.len() && after[k] == e;
            let rest = fresh.remove(i);
            let at = match position(rest, request_id) {
                Some(p) => if k < p { k } else { k + 1 },
                None => k,
            };
            assert(rest[at] == e);
            assert(fresh[if at < i { at } else { at + 1 }] == e);
            assert(fresh.contains(e));
        }
    } else {
        if fresh.contains(e) {
            let k = choose|k: int| 0 <= k < fresh.len() && fresh[k] == e;
            let at = match position(fresh, request_id) {
                Some(p) => if k < p { k } else { k - 1 },
                None => k,
            };
            assert(after[at] == e);
        }
        if after.contains(e) && e != added {
            let k = choose|k: int| 0 <= k < after.len() && after[k] == e;
            let at = match position(fresh, request_id) {
                Some(p) => if k < p { k } else { k + 1 },
                None => k,
            };
            assert(fresh[at] == e);
            assert(fresh.contains(e));
        }
    }
}

proof fn lemma_unexpired_shorter<R>(s: Seq<PendingResponse<R>>, now: Instant, ttl: nat)
    ensures
        unexpired(s, now, ttl).len() <= s.len(),
    decreases s.len(),
{
    if s.len() > 0 {
        lemma_unexpired_shorter(s.drop_last(), now, ttl);
    }
}

/// When a deadline has passed, a connection that has lived long enough is replaced.
/// Else the session goes on: the requests that have waited as long as is allowed go,
/// no others do, and the battery is looked at exactly when its time has come, and then
/// again after the same span.
pub proof fn deadlines_are_kept<K, R>(
    s: &mut SessionRunner<K, R>,
    now: Instant,
    a: InputAction,
    e: PendingResponse<R>,
)
    requires
        call_ensures(SessionRunner::<K, R>::on_input, (s, NextInput::Timer, now), a),
        old(s).pending.entries@.contains(e),
        old(s).pending.ttl@ > 0,
    ensures
        a is Rotate <==> old(s).rotation.deadline is Some && now@ >= old(s).rotation.deadline->0@,
        a is Rotate ==> final(s).pending == old(s).pending && final(s).battery_check == old(s).battery_check,
        !(a is Rotate) ==> {
            &&& a == (InputAction::Resume { check_battery: now@ >= old(s).battery_check@ })
            &&& final(s).pending.entries@.contains(e) <==> now@ < e.since@ + old(s).pending.ttl@
            &&& now@ < old(s).battery_check@ ==> final(s).battery_check@ == old(s).battery_check@
            &&& now@ >= old(s).battery_check@ ==> final(s).battery_check@ == now@ + 60
                * NANOS_PER_SEC
        },
{
    lemma_unexpired(old(s).pending.entries@, now, old(s).pending.ttl@);
}

/// When a session is ended by its clocks: exactly when the line was silent for the idle
/// timeout, or no genuine frame came for three of them. A session that goes on sends a
/// keepalive exactly when one is due, in the class that answers a user, and a cover
/// frame exactly when one is due and the session is encrypted, in the class that can
/// wait; it sends nothing else.
pub proof fn clocks_decide<K, R>(
    s: &mut SessionRunner<K, R>,
    now: Instant,
    keepalive_wait: Duration,
    cover_wait: Duration,
    plan: TickPlan,
)
    requires
        call_ensures(SessionRunner::<K, R>::tick, (s, now, keepalive_wait, cover_wait), plan),
        old(s).liveness.timers.idle_enabled ==> old(s).liveness.timers.idle_timeout@ > 0,
    ensures
        ({
            let l = old(s).liveness;
            let t = l.timers;
            let on = l.timer_enabled;
            let silent = t.idle_enabled && now@ >= t.last_rx@ + t.idle_timeout@;
            let lifeless = t.idle_enabled && now@ >= t.last_genuine_rx@ + 3 * t.idle_timeout@;
            let keepalive = t.keepalive_enabled && now@ >= t.next_keepalive@;
            let cover = t.cover_enabled && now@ >= t.next_cover@ && old(s).crypto.tx_cipher is Some;
            let n: int = if cover {
                1
            } else {
                0
            };
            &&& plan.close is Some <==> on && (silent || lifeless)
            &&& on && silent ==> plan.close == Some(CloseReason::IdleTimeout)
            &&& on && lifeless && !silent ==> plan.close == Some(CloseReason::LivenessCeiling)
            &&& plan.close is Some || !on ==> plan.frames@.len() == 0 && !plan.stalled
                && plan.probe == ProbeStage::Quiet && final(s).liveness == l && final(s).grace.entries@ == old(s).grace.entries@
            &&& plan.close is None && on ==> {
                &&& plan.frames@.len() == n + if keepalive {
                    1int
                } else {
                    0
                }
                &&& cover ==> plan.frames@[0].0 == BACKGROUND && is_cover_frame(
                    plan.frames@[0].1@,
                ) && final(s).liveness.timers.next_cover@ == now@ + cover_wait@
                &&& keepalive ==> plan.frames@[n].0 == INTERACTIVE && plan.frames@[n].1@
                    == plain_frame(
                    FrameFamily::Control.code_spec(),
                    ControlMsg::Keepalive.code_spec(),
                    Seq::empty(),
                ) && final(s).liveness.timers.next_keepalive@ == now@ + keepalive_wait@
                &&& !cover ==> final(s).liveness.timers.next_cover == t.next_cover
                &&& !keepalive ==> final(s).liveness.timers.next_keepalive == t.next_keepalive
                &&& plan.stalled <==> t.idle_enabled && !l.stall_trigger.fired && (now@
                    >= t.last_rx@ + (t.idle_timeout@ * 2) / 3 || t.idle_timeout@ == 1)
                &&& final(s).liveness.stall_trigger.fired <==> l.stall_trigger.fired
                    || plan.stalled
                &&& l.probe.oldest is Some ==> final(s).liveness.probe.oldest == l.probe.oldest
                &&& l.probe.oldest is None ==> final(s).liveness.probe.oldest == if keepalive {
                    Some(now)
                } else {
                    None
                }
            }
            &&& final(s).liveness.timers.last_rx == t.last_rx
            &&& final(s).liveness.timers.last_genuine_rx == t.last_genuine_rx
            &&& final(s).crypto == old(s).crypto
            &&& final(s).pending == old(s).pending
            &&& final(s).rekey == old(s).rekey
        }),
{
}

/// Failed writes call for another transport exactly from the configured number on, and
/// never without one.
pub proof fn failed_writes_add_up<K, R>(s: &mut SessionRunner<K, R>, fire: bool)
    requires
        call_ensures(SessionRunner::<K, R>::on_primary_write_error, (s,), fire),
    ensures
        ({
            let n = old(s).write_errors@.count;
            &&& final(s).write_errors@.count == if n < u32::MAX {
                n + 1
            } else {
                n as int
            }
            &&& final(s).write_errors@.threshold == old(s).write_errors@.threshold
            &&& fire <==> old(s).write_errors@.threshold > 0 && final(s).write_errors@.count
                >= old(s).write_errors@.threshold
            &&& final(s).liveness == old(s).liveness
            &&& final(s).crypto == old(s).crypto
            &&& final(s).pending == old(s).pending
        }),
{
}

/// Only frames that carry media make a session watch its line more closely.
pub proof fn media_is_what_accelerates<K, R>(
    s: &mut SessionRunner<K, R>,
    priority: u8,
    now: Instant,
    wait: Duration,
)
    requires
        call_ensures(SessionRunner::<K, R>::note_queued, (s, priority, now, wait), ()),
    ensures
        priority != 0 ==> *final(s) == *old(s),
        priority == 0 ==> {
            let t = old(s).liveness.timers;
            let u = final(s).liveness.timers;
            &&& u.last_realtime == Some(now)
            &&& u.next_keepalive@ <= t.next_keepalive@
            &&& t.keepalive_enabled && t.last_realtime is None ==> u.next_keepalive@ <= now@
                + wait@
            &&& u.last_rx == t.last_rx
            &&& u.last_genuine_rx == t.last_genuine_rx
            &&& u.idle_timeout == t.idle_timeout
            &&& u.keepalive_interval == t.keepalive_interval
            &&& final(s).liveness.probe == old(s).liveness.probe
        },
{
}

/// A connection that has lived long enough is followed by another with a lifetime of
/// its own, or the session is over.
pub proof fn a_rotation_renews_the_lifetime<K, R>(
    s: &mut SessionRunner<K, R>,
    spawned: bool,
    now: Instant,
    lifetime: Option<Duration>,
    over: bool,
)
    requires
        call_ensures(
            SessionRunner::<K, R>::after_rotation_attempt,
            (s, spawned, now, lifetime),
            over,
        ),
    ensures
        over <==> !spawned,
        spawned && lifetime is Some ==> final(s).rotation.deadline is Some && final(s).rotation.deadline->0@ == now@ + lifetime->0@,
        spawned && lifetime is None ==> final(s).rotation.deadline is None,
        !spawned ==> final(s).rotation == old(s).rotation,
        final(s).liveness == old(s).liveness,
        final(s).crypto == old(s).crypto,
        final(s).rekey == old(s).rekey,
{
}

/// What an encrypted session hands to the writer: one write, from which a receiver in
/// step reads every frame in its order and, at most, padding behind them. What was
/// written is counted, byte for byte, towards the next rekey. A session that could not
/// write has written nothing and counts nothing.
pub proof fn a_write_holds_every_frame<K, R>(
    s: &mut SessionRunner<K, R>,
    frames: &Vec<Vec<u8>>,
    padding: bool,
    wire: &mut WireOutbox,
    now: Instant,
    r: FlushOutcome,
    i: int,
)
    requires
        call_ensures(SessionRunner::<K, R>::flush, (s, frames, padding, wire, now), r),
        old(s).crypto.tx_cipher is Some,
        0 <= i < frames@.len(),
        all_receivable(frames@),
    ensures
        !(r is Queued) ==> *final(wire) == *old(wire) && final(s).rekey == old(s).rekey && final(s).mlkem == old(s).mlkem && final(s).coalescer == old(s).coalescer,
        r is Queued ==> {
            let c = old(s).crypto.tx_cipher->0;
            let w = final(wire).writes@.last()@;
            let got = read_frames(w, c.key(), c.frames() as nat);
            let sent = old(s).rekey.bytes_since_rekey + r->Queued_0;
            &&& final(wire).writes@.len() == old(wire).writes@.len() + 1
            &&& final(wire).slots == old(wire).slots - 1
            &&& w.len() <= u64::MAX ==> r->Queued_0 == w.len()
            &&& got is Some
            &&& frames@.len() <= got->0.len() <= frames@.len() + 1
            &&& got->0[i].1 == frames@[i]@.subrange(HEADER_SIZE as int, frames@[i]@.len() as int)
            &&& got->0[i].0.family == header_of(frames@[i]@, MAX_FRAME_BODY)->Ok_0.family
            &&& got->0[i].0.msg_type == header_of(frames@[i]@, MAX_FRAME_BODY)->Ok_0.msg_type
            &&& got->0[i].0.request_id == header_of(frames@[i]@, MAX_FRAME_BODY)->Ok_0.request_id
            &&& !padding ==> got->0.len() == frames@.len()
            &&& final(s).crypto.tx_cipher is Some
            &&& final(s).crypto.tx_cipher->0.key() == c.key()
            &&& final(s).crypto.tx_cipher->0.frames() == c.frames() + got->0.len()
            &&& final(s).rekey.bytes_since_rekey == if sent <= u64::MAX {
                sent
            } else {
                u64::MAX as int
            }
            &&& final(s).coalescer.last_drain == now
        },
        final(s).crypto.rx_cipher == old(s).crypto.rx_cipher,
        final(s).rekey.last_rekey_at == old(s).rekey.last_rekey_at,
        final(s).rekey.pending == old(s).rekey.pending,
        final(s).session_id == old(s).session_id,
        final(s).liveness == old(s).liveness,
{
    let got = all_received(frames@);
    assert(got[i] == received(frames@[i]@));
}

/// What a session that is not encrypted yet hands to the writer: its frames as they
/// are, each a write of its own, in their order, as far as there are slots.
pub proof fn plain_frames_are_written_as_they_are<K, R>(
    s: &mut SessionRunner<K, R>,
    frames: &Vec<Vec<u8>>,
    padding: bool,
    wire: &mut WireOutbox,
    now: Instant,
    r: FlushOutcome,
    i: int,
)
    requires
        call_ensures(SessionRunner::<K, R>::flush, (s, frames, padding, wire, now), r),
        old(s).crypto.tx_cipher is None,
        0 <= i < frames@.len(),
        i < old(wire).slots,
    ensures
        r is Queued <==> !old(wire).closed,
        r is WriteFailed <==> old(wire).closed,
        r is Queued ==> final(wire).writes@[old(wire).writes@.len() + i]@ == frames@[i]@,
        r is Queued && frames@.len() <= old(wire).slots ==> final(wire).writes@.len() == old(wire).writes@.len() + frames@.len(),
        final(s).crypto == old(s).crypto,
        final(s).liveness == old(s).liveness,
{
}

/// A response is sent just as the dispatcher gave it, sealed where the session is
/// encrypted, and counted towards the next rekey. Without a slot or without leave it is
/// dropped, and nothing is sealed for it.
pub proof fn a_response_is_sent_or_leaves_no_trace<K, R>(
    s: &mut SessionRunner<K, R>,
    bytes: Vec<u8>,
    leave: bool,
    solver_free: bool,
    budget: &mut PowBudget,
    wire: &mut WireOutbox,
    now: Instant,
    o: DispatchOutcome,
)
    requires
        call_ensures(
            SessionRunner::<K, R>::process_dispatch_result,
            (s, DispatchResult::Response(bytes), leave, solver_free, budget, wire, now),
            o,
        ),
    ensures
        old(wire).slots == 0 || !leave ==> *final(s) == *old(s) && *final(wire) == *old(wire),
        old(wire).slots == 0 ==> o is Continue,
        old(s).crypto.tx_cipher is None && old(wire).slots > 0 && leave && !old(wire).closed ==> {
            &&& o is Continue
            &&& final(wire).writes@.len() == old(wire).writes@.len() + 1
            &&& final(wire).writes@.last()@ == bytes@
            &&& final(wire).slots == old(wire).slots - 1
        },
        old(wire).closed ==> *final(wire) == *old(wire),
        old(s).crypto.tx_cipher is None && old(wire).slots > 0 && leave && old(wire).closed
            ==> o is WriteFailed,
        old(s).crypto.tx_cipher is Some && final(wire).writes@.len() > old(wire).writes@.len()
            ==> {
            let c = old(s).crypto.tx_cipher->0;
            &&& o is Continue
            &&& Some(final(wire).writes@.last()@) == wire_of(bytes@, c.key(), c.frames())
            &&& final(s).crypto.tx_cipher is Some
            &&& final(s).crypto.tx_cipher->0.key() == c.key()
            &&& bytes@.len() >= HEADER_SIZE ==> final(s).crypto.tx_cipher->0.frames()
                == c.frames() + 1
        },
        final(wire).writes@.len() > old(wire).writes@.len() ==> {
            let n = old(s).rekey.bytes_since_rekey + final(wire).writes@.last()@.len();
            let m = old(s).mlkem.bytes_since_rekey + final(wire).writes@.last()@.len();
            &&& final(s).rekey.bytes_since_rekey == if n <= u64::MAX {
                n
            } else {
                u64::MAX as int
            }
            &&& final(s).mlkem.bytes_since_rekey == if m <= u64::MAX {
                m
            } else {
                u64::MAX as int
            }
        },
        *final(budget) == *old(budget),
        final(s).crypto.rx_cipher == old(s).crypto.rx_cipher,
        final(s).liveness == old(s).liveness,
        final(s).bp_signal == old(s).bp_signal,
        !(o is Solve) && !(o is Violation),
{
}

/// What else the dispatcher says: nothing to send leaves all as it was; a violation is
/// passed on in its own words and sends nothing; a puzzle is taken on exactly when a
/// solver is free and its difficulty is within the budget, which it then takes up.
pub proof fn the_dispatcher_is_obeyed<K, R>(
    s: &mut SessionRunner<K, R>,
    result: DispatchResult,
    leave: bool,
    solver_free: bool,
    budget: &mut PowBudget,
    wire: &mut WireOutbox,
    now: Instant,
    o: DispatchOutcome,
)
    requires
        call_ensures(
            SessionRunner::<K, R>::process_dispatch_result,
            (s, result, leave, solver_free, budget, wire, now),
            o,
        ),
        !(result is Response) && !(result is RateLimited),
    ensures
        *final(s) == *old(s),
        *final(wire) == *old(wire),
        result is NoResponse || result is NotHandled ==> o is Continue,
        o is Violation <==> result is Violation,
        result is Violation ==> o->Violation_0 == result->Violation_0,
        o is Solve <==> result is SolvePow && solver_free && old(budget).active
            + result->SolvePow_0 <= old(budget).limit,
        o is Solve ==> o->Solve_0.difficulty == result->SolvePow_0 && final(budget).active == old(budget).active + result->SolvePow_0,
        !(o is Solve) ==> final(budget).active == old(budget).active,
        final(budget).limit == old(budget).limit,
        !(o is Close) && !(o is WriteFailed),
{
}

/// A peer that sends too much is told so at most once per cooldown, with a frame of
/// that meaning and nothing else, and is never ended for it while a frame can be
/// sealed.
pub proof fn congestion_is_signalled_once_per_cooldown<K, R>(
    s: &mut SessionRunner<K, R>,
    leave: bool,
    solver_free: bool,
    budget: &mut PowBudget,
    wire: &mut WireOutbox,
    now: Instant,
    o: DispatchOutcome,
)
    requires
        call_ensures(
            SessionRunner::<K, R>::process_dispatch_result,
            (s, DispatchResult::RateLimited, leave, solver_free, budget, wire, now),
            o,
        ),
        old(s).bp_signal.cooldown@ > 0,
    ensures
        ({
            let due = old(s).bp_signal.last is None || now@ >= old(s).bp_signal.last->0@ + old(s).bp_signal.cooldown@;
            let frame = plain_frame(
                FrameFamily::Control.code_spec(),
                ControlMsg::Backpressure.code_spec(),
                Seq::empty(),
            );
            &&& !due ==> *final(wire) == *old(wire) && final(s).bp_signal == old(s).bp_signal
                && o is Continue
            &&& due ==> final(s).bp_signal.last == Some(now)
            &&& old(wire).slots == 0 || old(wire).closed ==> *final(wire) == *old(wire)
            &&& old(wire).slots == 0 ==> o is Continue && final(s).crypto == old(s).crypto
            &&& due && old(wire).slots > 0 && !old(wire).closed && old(s).crypto.tx_cipher is None
                ==> o is Continue && final(wire).writes@.len() == old(wire).writes@.len() + 1
                && final(wire).writes@.last()@ == frame
            &&& due && old(wire).slots > 0 && !old(wire).closed && old(s).crypto.tx_cipher is Some
                && o is Continue ==> final(wire).writes@.len() == old(wire).writes@.len() + 1
                && Some(final(wire).writes@.last()@) == wire_of(
                frame,
                old(s).crypto.tx_cipher->0.key(),
                old(s).crypto.tx_cipher->0.frames(),
            )
            &&& o is Continue || o is Close
            &&& final(s).bp_signal.cooldown == old(s).bp_signal.cooldown
            &&& *final(budget) == *old(budget)
            &&& final(s).rekey == old(s).rekey
            &&& final(s).liveness == old(s).liveness
        }),
{
}

/// What leave is asked for: the bytes that will go over the wire, the tag included
/// where the session is encrypted; and for none without a slot.
pub proof fn leave_is_asked_for_what_is_sent<K, R>(
    s: &SessionRunner<K, R>,
    len: usize,
    slots: usize,
    p: ResponsePlan,
)
    requires
        call_ensures(SessionRunner::<K, R>::response_plan, (s, len, slots), p),
    ensures
        p is Skip <==> slots == 0,
        p is AskLeave ==> p->AskLeave_0 == len + if s.crypto.tx_cipher is Some {
            16int
        } else {
            0
        },
        p is Close <==> slots > 0 && s.crypto.tx_cipher is Some && len + 16 > usize::MAX,
{
}

/// When a session wakes: never after its battery check, the end of the batching window
/// or of its connection's lifetime; and with its clocks on never after the idle
/// deadline, the next keepalive or the next cover frame.
pub proof fn nothing_is_overslept<K, R>(
    s: &SessionRunner<K, R>,
    coalesce_until: Option<Instant>,
    now: Instant,
    at: Option<Instant>,
)
    requires
        call_ensures(SessionRunner::<K, R>::wake_at, (s, coalesce_until, now), at),
    ensures
        at is Some,
        at->0@ <= s.battery_check@,
        coalesce_until is Some ==> at->0@ <= coalesce_until->0@,
        s.rotation.deadline is Some ==> at->0@ <= s.rotation.deadline->0@,
        s.liveness.timer_enabled ==> at->0@ <= s.liveness.timers.last_rx@
            + s.liveness.timers.idle_timeout@,
        s.liveness.timer_enabled && s.liveness.timers.keepalive_enabled ==> at->0@
            <= s.liveness.timers.next_keepalive@,
        s.liveness.timer_enabled && s.liveness.timers.cover_enabled ==> at->0@
            <= s.liveness.timers.next_cover@,
        !s.liveness.timer_enabled ==> at->0@ == s.battery_check@ || (coalesce_until is Some
            && at->0@ == coalesce_until->0@) || (s.rotation.deadline is Some && at->0@
            == s.rotation.deadline->0@),
{
    let l = s.liveness;
    let check = s.battery_check;
    let end = s.rotation.deadline;
    assert(l.wakes_at(now, check, coalesce_until, end, check@));
    assert(coalesce_until is Some ==> l.wakes_at(
        now,
        check,
        coalesce_until,
        end,
        coalesce_until->0@,
    ));
    assert(end is Some ==> l.wakes_at(now, check, coalesce_until, end, end->0@));
    assert(l.timer_enabled ==> l.wakes_at(
        now,
        check,
        coalesce_until,
        end,
        l.timers.last_rx@ + l.timers.idle_timeout@,
    ));
    assert(l.timer_enabled && l.timers.keepalive_enabled ==> l.wakes_at(
        now,
        check,
        coalesce_until,
        end,
        l.timers.next_keepalive@,
    ));
    assert(l.timer_enabled && l.timers.cover_enabled ==> l.wakes_at(
        now,
        check,
        coalesce_until,
        end,
        l.timers.next_cover@,
    ));
}

/// A body over the session's own limit is refused with its header, and one within it
/// never for its length.
pub proof fn bodies_stay_within_the_limit<K, R>(
    s: &SessionRunner<K, R>,
    h: FrameHeader,
    rest: Seq<u8>,
    bytes: &[u8],
    r: Result<FrameHeader, HeaderError>,
)
    requires
        call_ensures(SessionRunner::<K, R>::on_header, (s, bytes), r),
        bytes@ == header_bytes(h) + rest,
    ensures
        h.body_len <= s.max_frame_body ==> r == Ok::<FrameHeader, HeaderError>(h),
        h.body_len > s.max_frame_body ==> r == Err::<FrameHeader, HeaderError>(
            HeaderError::BodyTooLarge,
        ),
{
    header_reads_back(h, rest, s.max_frame_body);
}

/// What a session sends does not touch how it reads: neither the ciphers that open frames
/// nor, where nothing is sealed, those that seal.
pub proof fn sending_leaves_reading_alone<K, R>(
    s: &mut SessionRunner<K, R>,
    bytes: Vec<u8>,
    leave: bool,
    solver_free: bool,
    budget: &mut PowBudget,
    wire: &mut WireOutbox,
    now: Instant,
    o: DispatchOutcome,
)
    requires
        call_ensures(
            SessionRunner::<K, R>::process_dispatch_result,
            (s, DispatchResult::Response(bytes), leave, solver_free, budget, wire, now),
            o,
        ),
    ensures
        final(s).crypto.rx_cipher == old(s).crypto.rx_cipher,
        old(s).crypto.tx_cipher is None ==> final(s).crypto.tx_cipher is None,
        old(s).crypto.tx_cipher is Some ==> final(s).crypto.tx_cipher is Some && final(s).crypto.tx_cipher->0.key() == old(s).crypto.tx_cipher->0.key() && final(s).crypto.tx_cipher->0.frames() <= old(s).crypto.tx_cipher->0.frames() + 1,
{
}

} // verus!
