//! Whether the peer of a session is still there.
//!
//! A session is ended when the line was idle for too long, when no genuine frame
//! came for three idle timeouts, or when its keepalives stay unanswered and no
//! other transport could be found.

use crate::session::timers::{SessionTimers, LIVENESS_CEILING_MULTIPLE};
use crate::text::same_text;
use crate::time::{Duration, Instant, MAX_SPAN_NANOS};
use vstd::prelude::*;

verus! {

/// How many attempts to move to another transport an unanswered keepalive gets.
pub const KEEPALIVE_SWAP_ATTEMPT_CEILING: u32 = 2;

/// A keepalive unanswered for this many timeouts shows that nothing we send
/// arrives, whatever the peer sends us.
pub const TX_WEDGE_PROBE_MULTIPLE: u32 = 3;

/// A trigger that fires once until it is cleared.
#[derive(Clone, Copy, Debug, PartialEq, Eq, Structural)]
pub struct OnceTrigger {
    pub fired: bool,
}

impl OnceTrigger {
    /// A trigger that has not fired.
    pub fn new() -> (t: OnceTrigger)
        ensures
            !t.fired,
    {
        OnceTrigger { fired: false }
    }

    /// Fires the trigger, and says whether it had not fired before.
    pub fn try_fire(&mut self) -> (b: bool)
        ensures
            b == !old(self).fired,
            final(self).fired,
    {
        let first: bool = !self.fired;
        self.fired = true;
        first
    }

    /// Whether the trigger has fired.
    pub fn has_fired(&self) -> (b: bool)
        ensures
            b == self.fired,
    {
        self.fired
    }

    /// Lets the trigger fire again.
    pub fn clear(&mut self)
        ensures
            !final(self).fired,
    {
        self.fired = false;
    }
}

/// When the oldest unanswered keepalive was sent.
#[derive(Clone, Copy, Debug)]
pub struct PendingKeepaliveProbe {
    pub oldest: Option<Instant>,
}

impl PendingKeepaliveProbe {
    /// No keepalive is unanswered.
    pub fn new() -> (p: PendingKeepaliveProbe)
        ensures
            p.oldest is None,
    {
        PendingKeepaliveProbe { oldest: None }
    }

    /// Notes a keepalive sent at `now`. An older unanswered one stays the oldest.
    pub fn try_arm(&mut self, now: Instant) -> (armed: bool)
        ensures
            armed == (old(self).oldest is None),
            final(self).oldest == Some(
                match old(self).oldest {
                    Some(t) => t,
                    None => now,
                },
            ),
    {
        match self.oldest {
            Some(_) => false,
            None => {
                self.oldest = Some(now);
                true
            },
        }
    }

    /// When the oldest unanswered keepalive was sent.
    pub fn oldest(&self) -> (t: Option<Instant>)
        ensures
            t == self.oldest,
    {
        self.oldest
    }

    /// Whether a keepalive is unanswered.
    pub fn is_armed(&self) -> (b: bool)
        ensures
            b == (self.oldest is Some),
    {
        self.oldest.is_some()
    }

    /// Notes an answer.
    pub fn clear(&mut self)
        ensures
            final(self).oldest is None,
    {
        self.oldest = None;
    }
}

/// Whether a session with an unanswered keepalive is given up: the keepalive is
/// overdue, no other transport is left to try, and either the peer has been
/// silent as well or nothing of ours has arrived for several timeouts.
pub open spec fn gives_up(
    probe_age: nat,
    probe_timeout: nat,
    swap_attempts: u32,
    ceiling: u32,
    last_genuine_rx_age: nat,
    hot_standby_ok: bool,
) -> bool {
    &&& probe_timeout > 0
    &&& probe_age >= probe_timeout
    &&& last_genuine_rx_age >= probe_timeout || probe_age >= probe_timeout * TX_WEDGE_PROBE_MULTIPLE
    &&& !hot_standby_ok || swap_attempts >= ceiling
}

/// Whether a session with an unanswered keepalive is given up.
pub fn should_reeval_teardown(
    probe_age: Duration,
    probe_timeout: Duration,
    swap_attempts: u32,
    ceiling: u32,
    last_genuine_rx_age: Duration,
    hot_standby_ok: bool,
) -> (b: bool)
    ensures
        b == gives_up(
            probe_age@,
            probe_timeout@,
            swap_attempts,
            ceiling,
            last_genuine_rx_age@,
            hot_standby_ok,
        ),
{
    if probe_timeout.is_zero() {
        return false;
    }
    let age: u128 = probe_age.as_nanos();
    let timeout: u128 = probe_timeout.as_nanos();
    let genuine_age: u128 = last_genuine_rx_age.as_nanos();
    let probe_stale: bool = age >= timeout;
    let genuine_stale: bool = genuine_age >= timeout;
    let windows: u128 = TX_WEDGE_PROBE_MULTIPLE as u128;
    assert(windows == 3);
    let tx_wedged: bool = age >= timeout * windows;
    let no_failover: bool = !hot_standby_ok || swap_attempts >= ceiling;
    probe_stale && (genuine_stale || tx_wedged) && no_failover
}

/// Fresh frames of the peer protect a session only up to three timeouts, and only
/// while another transport can be tried are they not needed.
pub proof fn fresh_frames_protect_until_wedged(
    probe_age: nat,
    probe_timeout: nat,
    swap_attempts: u32,
    ceiling: u32,
    age: nat,
    hot_standby_ok: bool,
)
    requires
        age < probe_timeout,
    ensures
        probe_age < probe_timeout * TX_WEDGE_PROBE_MULTIPLE ==> !gives_up(
            probe_age,
            probe_timeout,
            swap_attempts,
            ceiling,
            age,
            hot_standby_ok,
        ),
        probe_age >= probe_timeout * TX_WEDGE_PROBE_MULTIPLE && swap_attempts >= ceiling
            ==> gives_up(
            probe_age,
            probe_timeout,
            swap_attempts,
            ceiling,
            age,
            hot_standby_ok,
        ),
{
}

/// Once a session is given up, it stays given up while the keepalive remains
/// unanswered and the peer silent.
pub proof fn giving_up_is_lasting(
    probe_age: nat,
    later_probe_age: nat,
    probe_timeout: nat,
    swap_attempts: u32,
    later_attempts: u32,
    ceiling: u32,
    age: nat,
    later_age: nat,
)
    requires
        probe_age <= later_probe_age,
        age <= later_age,
        swap_attempts <= later_attempts,
        gives_up(probe_age, probe_timeout, swap_attempts, ceiling, age, true),
    ensures
        gives_up(later_probe_age, probe_timeout, later_attempts, ceiling, later_age, true),
        gives_up(later_probe_age, probe_timeout, later_attempts, ceiling, later_age, false),
{
}

/// Why a tick ends the session.
#[derive(Clone, Copy, Debug, PartialEq, Eq, Structural)]
pub enum CloseReason {
    /// The line was idle for too long.
    IdleTimeout,
    /// No genuine frame came for several idle timeouts.
    LivenessCeiling,
}

/// What a tick asks for an overdue keepalive.
#[derive(Clone, Copy, Debug, PartialEq, Eq, Structural)]
pub enum ProbeStage {
    /// Nothing.
    Quiet,
    /// The first attempt to move to another transport.
    First,
    /// Another attempt, after which the session may be given up.
    Again,
}

/// What a tick asks for.
#[derive(Clone, Copy, Debug, PartialEq, Eq, Structural)]
pub enum Tick {
    /// End the session.
    Close(CloseReason),
    /// Go on.
    Proceed {
        /// Try another transport because the line has stalled.
        stalled: bool,
        /// Queue a cover frame.
        cover: bool,
        /// Queue a keepalive.
        keepalive: bool,
        probe: ProbeStage,
    },
}

/// What a session knows of its peer's presence.
#[derive(Clone, Copy, Debug)]
pub struct Liveness {
    pub timers: SessionTimers,
    pub stall_trigger: OnceTrigger,
    pub probe: PendingKeepaliveProbe,
    pub probe_trigger: OnceTrigger,
    pub swap_attempts: u32,
    pub probe_timeout: Duration,
    pub keepalive_enabled: bool,
    pub timer_enabled: bool,
}

impl Liveness {
    /// Whether spans up to `now` can be counted.
    pub open spec fn in_range(self, now: Instant) -> bool {
        &&& self.timers.in_range()
        &&& now@ - self.timers.last_genuine_rx@ <= MAX_SPAN_NANOS
        &&& self.probe.oldest matches Some(t) ==> t.has_room() && now@ - t@ <= MAX_SPAN_NANOS
    }

    /// A session that starts at `now`. A keepalive is overdue after one interval.
    pub fn new(
        keepalive_interval: Duration,
        idle_timeout: Duration,
        rotation_enabled: bool,
        now: Instant,
        keepalive_wait: Duration,
        cover_wait: Duration,
    ) -> (l: Liveness)
        requires
            now.has_room(),
        ensures
            l.in_range(now),
            l.timers.last_rx == now,
            l.timers.last_genuine_rx == now,
            l.timers.keepalive_interval == keepalive_interval,
            l.timers.idle_timeout == idle_timeout,
            l.timers.next_keepalive@ == now@ + keepalive_wait@,
            l.timers.next_cover@ == now@ + cover_wait@,
            l.timers.keepalive_enabled == (keepalive_interval@ > 0),
            l.timers.idle_enabled == (idle_timeout@ > 0),
            l.timers.cover_enabled == (keepalive_interval@ > 0),
            l.timers.last_realtime is None,
            !l.stall_trigger.fired,
            !l.probe_trigger.fired,
            l.probe.oldest is None,
            l.swap_attempts == 0,
            l.probe_timeout == keepalive_interval,
            l.keepalive_enabled == (keepalive_interval@ > 0),
            l.timer_enabled == (keepalive_interval@ > 0 || idle_timeout@ > 0 || rotation_enabled),
    {
        let timers: SessionTimers = SessionTimers::new(
            keepalive_interval,
            idle_timeout,
            now,
            keepalive_wait,
            cover_wait,
        );
        let keepalive_enabled: bool = timers.keepalive_enabled();
        let timer_enabled: bool = keepalive_enabled || timers.idle_enabled() || rotation_enabled
            || timers.cover_enabled();
        Liveness {
            timers,
            stall_trigger: OnceTrigger::new(),
            probe: PendingKeepaliveProbe::new(),
            probe_trigger: OnceTrigger::new(),
            swap_attempts: 0,
            probe_timeout: keepalive_interval,
            keepalive_enabled,
            timer_enabled,
        }
    }

    /// Whether the line has been idle for too long at `now`.
    pub open spec fn idle_over(self, now: Instant) -> bool {
        self.timers.idle_enabled && now.elapsed(self.timers.last_rx) >= self.timers.idle_timeout@
    }

    /// Whether no genuine frame has come for too long at `now`.
    pub open spec fn ceiling_over(self, now: Instant) -> bool {
        self.timers.idle_enabled && now.elapsed(self.timers.last_genuine_rx)
            >= self.timers.idle_timeout@ * LIVENESS_CEILING_MULTIPLE
    }

    /// Whether the line counts as stalled at `now` and nothing was done about it.
    pub open spec fn stall_due(self, now: Instant) -> bool {
        self.timers.idle_enabled && now.elapsed(self.timers.last_rx) >= self.timers.stall_span()
            && !self.stall_trigger.fired
    }

    /// Whether a keepalive is due at `now`.
    pub open spec fn keepalive_due(self, now: Instant) -> bool {
        self.timers.keepalive_enabled && now@ >= self.timers.next_keepalive@
    }

    /// Whether a cover frame is due at `now`.
    pub open spec fn cover_due(self, now: Instant, sealed: bool) -> bool {
        sealed && self.timers.cover_enabled && now@ >= self.timers.next_cover@
    }

    /// When the oldest unanswered keepalive was sent, counting one sent at `now`.
    pub open spec fn oldest_probe(self, now: Instant) -> Option<Instant> {
        match self.probe.oldest {
            Some(t) => Some(t),
            None => if self.keepalive_due(now) {
                Some(now)
            } else {
                None
            },
        }
    }

    /// How long the answer to a keepalive is waited for at `now`.
    pub open spec fn answer_span(self, now: Instant) -> nat {
        self.timers.probe_span(self.probe_timeout@, now)
    }

    /// What is asked for an overdue keepalive at `now`.
    pub open spec fn probe_stage(self, now: Instant) -> ProbeStage {
        let overdue = self.keepalive_enabled && self.probe_timeout@ > 0 && self.oldest_probe(
            now,
        ) is Some && now.elapsed(self.oldest_probe(now)->0) >= self.answer_span(now);
        if !overdue {
            ProbeStage::Quiet
        } else if self.probe_trigger.fired {
            ProbeStage::Again
        } else {
            ProbeStage::First
        }
    }

    /// What a tick at `now` asks for.
    pub open spec fn tick_at(self, now: Instant, sealed: bool) -> Tick {
        if !self.timer_enabled {
            Tick::Proceed {
                stalled: false,
                cover: false,
                keepalive: false,
                probe: ProbeStage::Quiet,
            }
        } else if self.idle_over(now) {
            Tick::Close(CloseReason::IdleTimeout)
        } else if self.ceiling_over(now) {
            Tick::Close(CloseReason::LivenessCeiling)
        } else {
            Tick::Proceed {
                stalled: self.stall_due(now),
                cover: self.cover_due(now, sealed),
                keepalive: self.keepalive_due(now),
                probe: self.probe_stage(now),
            }
        }
    }

    /// The state after a tick at `now` that did not end the session.
    pub open spec fn ticked(
        self,
        now: Instant,
        sealed: bool,
        keepalive_wait: nat,
        cover_wait: nat,
        next: Liveness,
    ) -> bool {
        let stage = self.probe_stage(now);
        &&& next.timers == SessionTimers {
            next_keepalive: next.timers.next_keepalive,
            next_cover: next.timers.next_cover,
            ..self.timers
        }
        &&& if self.keepalive_due(now) {
            next.timers.next_keepalive@ == now@ + keepalive_wait
        } else {
            next.timers.next_keepalive == self.timers.next_keepalive
        }
        &&& if self.cover_due(now, sealed) {
            next.timers.next_cover@ == now@ + cover_wait
        } else {
            next.timers.next_cover == self.timers.next_cover
        }
        &&& next.stall_trigger.fired == (self.stall_trigger.fired || self.stall_due(now))
        &&& next.probe.oldest == self.oldest_probe(now)
        &&& next.probe_trigger.fired == (self.probe_trigger.fired || stage == ProbeStage::First)
        &&& next.swap_attempts == if stage == ProbeStage::Quiet || self.swap_attempts == u32::MAX {
            self.swap_attempts
        } else {
            (self.swap_attempts + 1) as u32
        }
        &&& next.probe_timeout == self.probe_timeout
        &&& next.keepalive_enabled == self.keepalive_enabled
        &&& next.timer_enabled == self.timer_enabled
    }

    /// Handles a tick at `now`. The waits until the next keepalive and the next
    /// cover frame are given, spread; cover frames are sent only once the session
    /// is sealed.
    pub fn tick(
        &mut self,
        now: Instant,
        sealed: bool,
        keepalive_wait: Duration,
        cover_wait: Duration,
    ) -> (t: Tick)
        requires
            now.has_room(),
            old(self).in_range(now),
        ensures
            t == old(self).tick_at(now, sealed),
            t is Close || !old(self).timer_enabled ==> *final(self) == *old(self),
            t is Proceed && old(self).timer_enabled ==> old(self).ticked(
                now,
                sealed,
                keepalive_wait@,
                cover_wait@,
                *final(self),
            ),
            final(self).in_range(now),
    {
        if !self.timer_enabled {
            return Tick::Proceed {
                stalled: false,
                cover: false,
                keepalive: false,
                probe: ProbeStage::Quiet,
            };
        }
        if self.timers.idle_timeout_elapsed(now) {
            return Tick::Close(CloseReason::IdleTimeout);
        }
        if self.timers.liveness_ceiling_elapsed(now) {
            return Tick::Close(CloseReason::LivenessCeiling);
        }
        let mut stalled: bool = false;
        if self.timers.rx_stall_elapsed(now) {
            stalled = self.stall_trigger.try_fire();
        }
        let mut cover: bool = false;
        if sealed {
            cover = self.timers.cover_due_and_reschedule(now, cover_wait);
        }
        let keepalive: bool = self.timers.keepalive_due_and_reschedule(now, keepalive_wait);
        if keepalive {
            let _ = self.probe.try_arm(now);
        }
        let mut probe: ProbeStage = ProbeStage::Quiet;
        if self.keepalive_enabled && !self.probe_timeout.is_zero() {
            let limit: Duration = self.timers.effective_keepalive_probe_timeout(
                self.probe_timeout,
                now,
            );
            match self.probe.oldest() {
                None => {},
                Some(t) => {
                    if now.elapsed_at_least(t, limit, 1) {
                        probe = if self.probe_trigger.try_fire() {
                            ProbeStage::First
                        } else {
                            ProbeStage::Again
                        };
                        self.swap_attempts = self.swap_attempts.saturating_add(1);
                    }
                },
            }
        }
        Tick::Proceed { stalled, cover, keepalive, probe }
    }

    /// Whether the session is given up after another attempt at `now`, of which
    /// `spawned` says whether it could be made.
    pub fn reap_after_attempt(&self, now: Instant, spawned: bool) -> (b: bool)
        requires
            self.in_range(now),
        ensures
            b == (self.probe.oldest matches Some(t) && gives_up(
                now.elapsed(t),
                self.answer_span(now),
                self.swap_attempts,
                KEEPALIVE_SWAP_ATTEMPT_CEILING,
                now.elapsed(self.timers.last_genuine_rx),
                spawned,
            )),
    {
        match self.probe.oldest() {
            None => false,
            Some(t) => should_reeval_teardown(
                now.since(t),
                self.timers.effective_keepalive_probe_timeout(self.probe_timeout, now),
                self.swap_attempts,
                KEEPALIVE_SWAP_ATTEMPT_CEILING,
                self.timers.genuine_rx_age(now),
                spawned,
            ),
        }
    }

    /// The state after the first byte of a frame came at `now`.
    pub open spec fn after_byte(self, now: Instant) -> Liveness {
        Liveness {
            timers: SessionTimers { last_rx: now, ..self.timers },
            stall_trigger: OnceTrigger { fired: false },
            ..self
        }
    }

    /// Notes the first byte of a frame: the line is active, and a later stall can be
    /// acted on again. Whether the frame is a genuine one is not known yet.
    pub fn note_byte(&mut self, now: Instant)
        ensures
            *final(self) == old(self).after_byte(now),
    {
        self.timers.note_rx_activity(now);
        self.stall_trigger.clear();
    }

    /// The state after a genuine frame was read at `now`.
    pub open spec fn after_genuine(self, now: Instant) -> Liveness {
        Liveness {
            timers: SessionTimers { last_rx: now, last_genuine_rx: now, ..self.timers },
            ..self
        }
    }

    /// Notes a genuine frame: the peer does more than keep the line open.
    pub fn note_genuine_frame(&mut self, now: Instant)
        ensures
            *final(self) == old(self).after_genuine(now),
    {
        self.timers.note_frame_received(now);
    }

    /// The state once what we send is known to arrive.
    pub open spec fn episode_over(self) -> Liveness {
        Liveness {
            probe: PendingKeepaliveProbe { oldest: None },
            probe_trigger: OnceTrigger { fired: false },
            swap_attempts: 0,
            ..self
        }
    }

    /// Notes the answer to a keepalive: what we send arrives.
    pub fn note_keepalive_ack(&mut self)
        ensures
            *final(self) == old(self).episode_over(),
    {
        self.probe.clear();
        self.probe_trigger.clear();
        self.swap_attempts = 0;
    }

    /// The state after the session moved to another transport at `now`.
    pub open spec fn after_swap(self, now: Instant) -> Liveness {
        let l = self.episode_over();
        Liveness {
            timers: SessionTimers { last_rx: now, ..l.timers },
            stall_trigger: OnceTrigger { fired: false },
            ..l
        }
    }

    /// Notes that the session moved to another transport: the line counts as
    /// active and earlier keepalives are forgotten, but the peer has shown no sign
    /// of life.
    pub fn note_swap(&mut self, now: Instant)
        ensures
            *final(self) == old(self).after_swap(now),
    {
        self.timers.note_swap(now);
        self.stall_trigger.clear();
        self.probe.clear();
        self.probe_trigger.clear();
        self.swap_attempts = 0;
    }
}

/// However often a session moves to another transport, the first tick at which no
/// genuine frame has come for three idle timeouts ends it.
pub proof fn swaps_cannot_keep_a_dead_peer(l: Liveness, swaps: Seq<Instant>, now: Instant, sealed: bool)
    requires
        l.timer_enabled,
        l.ceiling_over(now),
    ensures
        swapped(l, swaps).tick_at(now, sealed) is Close,
    decreases swaps.len(),
{
    lemma_swaps_keep_ceiling(l, swaps, now);
}

/// The state after moves to other transports at the given moments.
pub open spec fn swapped(l: Liveness, swaps: Seq<Instant>) -> Liveness
    decreases swaps.len(),
{
    if swaps.len() == 0 {
        l
    } else {
        swapped(l, swaps.drop_last()).after_swap(swaps.last())
    }
}

proof fn lemma_swaps_keep_ceiling(l: Liveness, swaps: Seq<Instant>, now: Instant)
    ensures
        swapped(l, swaps).ceiling_over(now) == l.ceiling_over(now),
        swapped(l, swaps).timer_enabled == l.timer_enabled,
    decreases swaps.len(),
{
    if swaps.len() > 0 {
        lemma_swaps_keep_ceiling(l, swaps.drop_last(), now);
    }
}

/// A session whose peer is silent and whose keepalives stay unanswered is given
/// up at the second overdue tick at the latest, even while attempts to move to
/// another transport keep being possible.
pub proof fn second_overdue_tick_gives_up(
    l: Liveness,
    now: Instant,
    sealed: bool,
    keepalive_wait: nat,
    cover_wait: nat,
    next: Liveness,
)
    requires
        l.probe_stage(now) == ProbeStage::Again,
        l.swap_attempts >= 1,
        now.elapsed(l.timers.last_genuine_rx) >= l.answer_span(now),
        l.ticked(now, sealed, keepalive_wait, cover_wait, next),
    ensures
        gives_up(
            now.elapsed(next.probe.oldest->0),
            next.answer_span(now),
            next.swap_attempts,
            KEEPALIVE_SWAP_ATTEMPT_CEILING,
            now.elapsed(next.timers.last_genuine_rx),
            true,
        ),
{
}

/// An answered keepalive ends the episode: neither an attempt nor a reaping is
/// due until another keepalive is overdue.
pub proof fn answered_keepalive_calms(l: Liveness, now: Instant)
    requires
        l.probe_timeout@ > 0,
    ensures
        l.episode_over().probe_stage(now) == ProbeStage::Quiet,
{
}

/// Stalling is acted on once until a frame comes or the transport changes.
pub proof fn stall_fires_once(
    l: Liveness,
    now: Instant,
    sealed: bool,
    keepalive_wait: nat,
    cover_wait: nat,
    next: Liveness,
    later: Instant,
)
    requires
        l.stall_due(now),
        l.ticked(now, sealed, keepalive_wait, cover_wait, next),
    ensures
        !next.stall_due(later),
        next.after_byte(later).stall_trigger.fired == false,
        next.after_swap(later).stall_trigger.fired == false,
{
}

/// What raised the wish to move a session to another transport.
#[derive(Clone, Copy, Debug, PartialEq, Eq, Structural)]
pub enum TriggerReason {
    WriteErrorThreshold,
    RxStall,
    KeepaliveProbeTimeout,
    WriterClosed,
    RotationDeadline,
    PrimaryClosed,
}

impl TriggerReason {
    /// The name of the reason in logs.
    pub open spec fn name(self) -> Seq<char> {
        match self {
            TriggerReason::WriteErrorThreshold => "write_error_threshold"@,
            TriggerReason::RxStall => "rx_stall"@,
            TriggerReason::KeepaliveProbeTimeout => "keepalive_probe_timeout"@,
            TriggerReason::WriterClosed => "writer_closed"@,
            TriggerReason::RotationDeadline => "rotation_deadline"@,
            TriggerReason::PrimaryClosed => "primary_closed"@,
        }
    }

    /// The name of the reason in logs.
    pub fn as_str(self) -> (s: &'static str)
        ensures
            s@ == self.name(),
    {
        match self {
            TriggerReason::WriteErrorThreshold => "write_error_threshold",
            TriggerReason::RxStall => "rx_stall",
            TriggerReason::KeepaliveProbeTimeout => "keepalive_probe_timeout",
            TriggerReason::WriterClosed => "writer_closed",
            TriggerReason::RotationDeadline => "rotation_deadline",
            TriggerReason::PrimaryClosed => "primary_closed",
        }
    }
}

/// Whether a session may move to another transport by itself: the feature is on,
/// and the line on which the peer would have to be told is not gone.
pub fn hot_standby_should_auto_fire(enabled: bool, reason: &str) -> (b: bool)
    ensures
        b == (enabled && reason@ != TriggerReason::PrimaryClosed.name()),
{
    enabled && !same_text(reason, "primary_closed")
}

/// How an attempt to move a session to another transport is made.
#[derive(Clone, Copy, Debug, PartialEq, Eq, Structural)]
pub enum StandbyAttempt {
    /// No attempt is made.
    Skip,
    /// The same address is dialled again.
    SameAddress,
    /// An alternative address is dialled.
    OtherAddress,
}

/// How an attempt is made, given whether a controller is there and switched on,
/// whether the session's keys are at hand and whether its address is known. Only
/// a rotation dials the same address again, because only then is the line healthy.
pub open spec fn attempt_for(
    controller: Option<bool>,
    reason: Seq<char>,
    has_keys: bool,
    has_primary_uri: bool,
) -> StandbyAttempt {
    if controller != Some(true) || reason == TriggerReason::PrimaryClosed.name() || !has_keys {
        StandbyAttempt::Skip
    } else if reason == TriggerReason::RotationDeadline.name() && has_primary_uri {
        StandbyAttempt::SameAddress
    } else {
        StandbyAttempt::OtherAddress
    }
}

/// Decides how an attempt to move a session to another transport is made.
pub fn fire_hot_standby_trigger(
    controller: Option<bool>,
    reason: &str,
    has_keys: bool,
    has_primary_uri: bool,
) -> (a: StandbyAttempt)
    ensures
        a == attempt_for(controller, reason@, has_keys, has_primary_uri),
{
    match controller {
        None => StandbyAttempt::Skip,
        Some(enabled) => {
            if !hot_standby_should_auto_fire(enabled, reason) || !has_keys {
                StandbyAttempt::Skip
            } else if same_text(reason, "rotation_deadline") && has_primary_uri {
                StandbyAttempt::SameAddress
            } else {
                StandbyAttempt::OtherAddress
            }
        },
    }
}

/// The moments at which a session has to wake, of which the last four may be
/// absent.
pub open spec fn wakes(
    timers: SessionTimers,
    battery_check: Instant,
    timer_enabled: bool,
    keepalive_enabled: bool,
    probe_fired: bool,
    probe_timeout: nat,
    probe_since: Option<Instant>,
    stall_fired: bool,
    coalesce_until: Option<Instant>,
    rotation_deadline: Option<Instant>,
    at: nat,
) -> bool {
    ||| at == battery_check@
    ||| timer_enabled && at == timers.last_rx@ + timers.idle_timeout@
    ||| timer_enabled && timers.keepalive_enabled && at == timers.next_keepalive@
    ||| timer_enabled && timers.cover_enabled && at == timers.next_cover@
    ||| timer_enabled && timers.idle_enabled && !stall_fired && at == timers.last_rx@
        + timers.stall_span()
    ||| timer_enabled && keepalive_enabled && !probe_fired && probe_timeout > 0 && probe_since is Some
        && at == probe_since->0@ + probe_timeout
    ||| coalesce_until is Some && at == coalesce_until->0@
    ||| rotation_deadline is Some && at == rotation_deadline->0@
}

/// The moment at which a session has to wake next: the earliest of the battery
/// check, the idle deadline, the next keepalive and cover frame, the moment at
/// which the line counts as stalled, the deadline of an unanswered keepalive, the
/// end of the batching window and the end of the connection's lifetime.
pub fn compute_sleep_deadline(
    timers: &SessionTimers,
    battery_check: Instant,
    timer_enabled: bool,
    keepalive_enabled: bool,
    keepalive_probe_trigger_fired: bool,
    keepalive_probe_timeout: Duration,
    pending_keepalive_ack_since: Option<Instant>,
    stall_trigger_fired: bool,
    coalesce_until: Option<Instant>,
    rotation_deadline: Option<Instant>,
) -> (r: Option<Instant>)
    requires
        timers.in_range(),
        pending_keepalive_ack_since matches Some(t) ==> t.has_room(),
    ensures
        r is Some,
        wakes(
            *timers,
            battery_check,
            timer_enabled,
            keepalive_enabled,
            keepalive_probe_trigger_fired,
            keepalive_probe_timeout@,
            pending_keepalive_ack_since,
            stall_trigger_fired,
            coalesce_until,
            rotation_deadline,
            r->0@,
        ),
        forall|at: nat|
            #[trigger] wakes(
                *timers,
                battery_check,
                timer_enabled,
                keepalive_enabled,
                keepalive_probe_trigger_fired,
                keepalive_probe_timeout@,
                pending_keepalive_ack_since,
                stall_trigger_fired,
                coalesce_until,
                rotation_deadline,
                at,
            ) ==> r->0@ <= at,
{
    let mut wake: Instant = battery_check;
    if timer_enabled {
        wake = wake.earlier(timers.idle_deadline());
        if timers.keepalive_enabled() {
            wake = wake.earlier(timers.next_keepalive());
        }
        if timers.cover_enabled() {
            wake = wake.earlier(timers.next_cover());
        }
        if timers.idle_enabled() && !stall_trigger_fired {
            wake = wake.earlier(timers.stall_trigger_deadline());
        }
        if keepalive_enabled && !keepalive_probe_trigger_fired && !keepalive_probe_timeout.is_zero() {
            match pending_keepalive_ack_since {
                Some(t) => {
                    proof {
                        use_type_invariant(&keepalive_probe_timeout);
                    }
                    wake = wake.earlier(t.plus(keepalive_probe_timeout));
                },
                None => {},
            }
        }
    }
    match coalesce_until {
        Some(t) => {
            wake = wake.earlier(t);
        },
        None => {},
    }
    match rotation_deadline {
        Some(t) => {
            wake = wake.earlier(t);
        },
        None => {},
    }
    Some(wake)
}

impl Liveness {
    /// The moments at which a session with these clocks that falls asleep at `asleep`
    /// has to wake.
    pub open spec fn wakes_at(
        self,
        asleep: Instant,
        battery_check: Instant,
        coalesce_until: Option<Instant>,
        rotation_deadline: Option<Instant>,
        at: nat,
    ) -> bool {
        wakes(
            self.timers,
            battery_check,
            self.timer_enabled,
            self.keepalive_enabled,
            self.probe_trigger.fired,
            self.answer_span(asleep),
            self.probe.oldest,
            self.stall_trigger.fired,
            coalesce_until,
            rotation_deadline,
            at,
        )
    }
}

/// Nothing becomes due while a session sleeps until the first moment at which it has
/// to wake: no keepalive and no cover frame is due before, the line is neither idle
/// nor stalled for too long, no keepalive becomes overdue for the first time, and
/// neither the battery check, the end of the batching window nor the end of the
/// connection's lifetime has come. Only a session whose line was kept active by other
/// things than genuine frames can have gone without one for too long before it wakes.
pub proof fn nothing_is_due_before_the_wake(
    l: Liveness,
    asleep: Instant,
    battery_check: Instant,
    coalesce_until: Option<Instant>,
    rotation_deadline: Option<Instant>,
    wake: Instant,
    now: Instant,
    sealed: bool,
)
    requires
        forall|at: nat|
            #[trigger] l.wakes_at(asleep, battery_check, coalesce_until, rotation_deadline, at)
                ==> wake@ <= at,
        asleep@ <= now@,
        l.timers.last_rx@ <= now@ < wake@,
    ensures
        match l.tick_at(now, sealed) {
            Tick::Close(reason) => {
                &&& reason == CloseReason::LivenessCeiling
                &&& l.timers.last_genuine_rx@ < l.timers.last_rx@
            },
            Tick::Proceed { stalled, cover, keepalive, probe } => {
                !stalled && !cover && !keepalive && probe != ProbeStage::First
            },
        },
        now@ < battery_check@,
        coalesce_until matches Some(t) ==> now@ < t@,
        rotation_deadline matches Some(t) ==> now@ < t@,
{
    let due = |at: nat| l.wakes_at(asleep, battery_check, coalesce_until, rotation_deadline, at);
    assert(due(battery_check@));
    assert(l.timer_enabled ==> due(l.timers.last_rx@ + l.timers.idle_timeout@));
    assert(l.timer_enabled && l.timers.keepalive_enabled ==> due(l.timers.next_keepalive@));
    assert(l.timer_enabled && l.timers.cover_enabled ==> due(l.timers.next_cover@));
    assert(l.timer_enabled && l.timers.idle_enabled && !l.stall_trigger.fired ==> due(
        l.timers.last_rx@ + l.timers.stall_span(),
    ));
    assert(l.timer_enabled && l.keepalive_enabled && !l.probe_trigger.fired && l.probe_timeout@ > 0
        && l.probe.oldest is Some ==> due(l.probe.oldest->0@ + l.answer_span(asleep)));
    assert(l.answer_span(asleep) <= l.answer_span(now));
    assert(coalesce_until is Some ==> due(coalesce_until->0@));
    assert(rotation_deadline is Some ==> due(rotation_deadline->0@));
}

/// When a session is given up for an unanswered keepalive, in terms of how long it has
/// been unanswered and how long the peer has been silent: once a timeout is over, the
/// peer has been silent as long or two more have passed, and there is no other transport
/// or enough attempts were made. Without a timeout it never is.
pub proof fn when_an_unanswered_keepalive_ends_a_session(
    probe_age: Duration,
    probe_timeout: Duration,
    attempts: u32,
    ceiling: u32,
    silent_for: Duration,
    standby: bool,
    b: bool,
)
    requires
        call_ensures(
            should_reeval_teardown,
            (probe_age, probe_timeout, attempts, ceiling, silent_for, standby),
            b,
        ),
    ensures
        probe_timeout@ == 0 ==> !b,
        probe_age@ < probe_timeout@ ==> !b,
        standby && attempts < ceiling ==> !b,
        silent_for@ < probe_timeout@ && probe_age@ < 3 * probe_timeout@ ==> !b,
        probe_timeout@ > 0 && probe_age@ >= probe_timeout@ && silent_for@ >= probe_timeout@ && (
        !standby || attempts >= ceiling) ==> b,
        probe_timeout@ > 0 && probe_age@ >= 3 * probe_timeout@ && (!standby || attempts
            >= ceiling) ==> b,
{
}

/// What ends a session at a tick: an idle line first, then a peer without a genuine frame
/// for three idle timeouts; nothing else, and nothing at all without a timer.
pub proof fn what_ends_a_session(
    l: &mut Liveness,
    now: Instant,
    sealed: bool,
    keepalive_wait: Duration,
    cover_wait: Duration,
    t: Tick,
)
    requires
        old(l).timers.last_rx@ <= now@,
        old(l).timers.last_genuine_rx@ <= now@,
        call_ensures(Liveness::tick, (l, now, sealed, keepalive_wait, cover_wait), t),
    ensures
        t == Tick::Close(CloseReason::IdleTimeout) <==> old(l).timer_enabled && old(l).timers.idle_enabled && now@ >= old(l).timers.last_rx@ + old(l).timers.idle_timeout@,
        t == Tick::Close(CloseReason::LivenessCeiling) <==> old(l).timer_enabled && old(l).timers.idle_enabled && now@ < old(l).timers.last_rx@ + old(l).timers.idle_timeout@ && now@
            >= old(l).timers.last_genuine_rx@ + 3 * old(l).timers.idle_timeout@,
        t is Close ==> *final(l) == *old(l),
{
}

/// What a session that goes on is asked for at a tick: a keepalive and a cover frame at
/// their moments, a cover frame only once it is sealed, and another transport once per
/// stall of two thirds of the idle timeout.
pub proof fn what_a_tick_asks_for(
    l: &mut Liveness,
    now: Instant,
    sealed: bool,
    keepalive_wait: Duration,
    cover_wait: Duration,
    t: Tick,
)
    requires
        old(l).timers.last_rx@ <= now@,
        call_ensures(Liveness::tick, (l, now, sealed, keepalive_wait, cover_wait), t),
        t is Proceed,
    ensures
        ({
            let s = *old(l);
            let e = *final(l);
            &&& t->keepalive == (s.timer_enabled && s.timers.keepalive_enabled && now@
                >= s.timers.next_keepalive@)
            &&& t->cover == (s.timer_enabled && sealed && s.timers.cover_enabled && now@
                >= s.timers.next_cover@)
            &&& t->stalled == (s.timer_enabled && s.timers.idle_enabled && !s.stall_trigger.fired
                && 3 * (now@ - s.timers.last_rx@) + 2 >= 2 * s.timers.idle_timeout@)
            &&& t->keepalive ==> e.timers.next_keepalive@ == now@ + keepalive_wait@
            &&& !t->keepalive ==> e.timers.next_keepalive == s.timers.next_keepalive
            &&& t->cover ==> e.timers.next_cover@ == now@ + cover_wait@
            &&& !t->cover ==> e.timers.next_cover == s.timers.next_cover
            &&& t->stalled ==> e.stall_trigger.fired
            &&& !t->stalled ==> e.stall_trigger.fired == s.stall_trigger.fired
            &&& e.timers.last_rx == s.timers.last_rx
            &&& e.timers.last_genuine_rx == s.timers.last_genuine_rx
        }),
{
}

/// What a tick asks for an unanswered keepalive: nothing until it has been out for the
/// time that its answer is waited for, then the first attempt to move, then further ones.
/// Each attempt is counted. The oldest unanswered keepalive is the one that is timed.
pub proof fn unanswered_keepalives_are_acted_on(
    l: &mut Liveness,
    now: Instant,
    sealed: bool,
    keepalive_wait: Duration,
    cover_wait: Duration,
    t: Tick,
    sent: Instant,
    wait: Duration,
)
    requires
        old(l).timer_enabled,
        old(l).keepalive_enabled,
        old(l).probe_timeout@ > 0,
        old(l).probe.oldest == Some(sent),
        sent@ <= now@,
        call_ensures(
            SessionTimers::effective_keepalive_probe_timeout,
            (&old(l).timers, old(l).probe_timeout, now),
            wait,
        ),
        call_ensures(Liveness::tick, (l, now, sealed, keepalive_wait, cover_wait), t),
        t is Proceed,
    ensures
        t->probe == ProbeStage::Quiet <==> now@ < sent@ + wait@,
        t->probe == ProbeStage::First <==> now@ >= sent@ + wait@ && !old(l).probe_trigger.fired,
        t->probe == ProbeStage::Again <==> now@ >= sent@ + wait@ && old(l).probe_trigger.fired,
        final(l).probe.oldest == Some(sent),
        now@ < sent@ + wait@ ==> final(l).swap_attempts == old(l).swap_attempts && final(l).probe_trigger.fired == old(l).probe_trigger.fired,
        now@ >= sent@ + wait@ ==> final(l).probe_trigger.fired,
        now@ >= sent@ + wait@ && old(l).swap_attempts < u32::MAX ==> final(l).swap_attempts == old(l).swap_attempts + 1,
{
}

/// A keepalive that goes out while none is unanswered is timed from then on.
pub proof fn a_sent_keepalive_is_timed(
    l: &mut Liveness,
    now: Instant,
    sealed: bool,
    keepalive_wait: Duration,
    cover_wait: Duration,
    t: Tick,
)
    requires
        old(l).timer_enabled,
        old(l).probe.oldest is None,
        call_ensures(Liveness::tick, (l, now, sealed, keepalive_wait, cover_wait), t),
        t is Proceed,
    ensures
        t->keepalive ==> final(l).probe.oldest == Some(now),
        !t->keepalive ==> final(l).probe.oldest is None && t->probe == ProbeStage::Quiet,
{
}

/// An answer ends the timing and forgets the attempts. A move to another transport does
/// so too, and counts as activity; only a genuine frame is a sign of life.
pub proof fn answers_and_moves_start_over(
    a: &mut Liveness,
    m: &mut Liveness,
    g: &mut Liveness,
    b: &mut Liveness,
    now: Instant,
)
    requires
        call_ensures(Liveness::note_keepalive_ack, (a,), ()),
        call_ensures(Liveness::note_swap, (m, now), ()),
        call_ensures(Liveness::note_genuine_frame, (g, now), ()),
        call_ensures(Liveness::note_byte, (b, now), ()),
    ensures
        final(a).probe.oldest is None && !final(a).probe_trigger.fired && final(a).swap_attempts
            == 0,
        final(a).timers == old(a).timers && final(a).stall_trigger == old(a).stall_trigger,
        final(m).probe.oldest is None && !final(m).probe_trigger.fired && final(m).swap_attempts
            == 0,
        final(m).timers.last_rx == now && final(m).timers.last_genuine_rx == old(m).timers.last_genuine_rx && !final(m).stall_trigger.fired,
        final(g).timers.last_rx == now && final(g).timers.last_genuine_rx == now,
        final(g).probe == old(g).probe && final(g).swap_attempts == old(g).swap_attempts && final(g).stall_trigger == old(g).stall_trigger && final(g).probe_trigger == old(g).probe_trigger,
        final(b).timers.last_rx == now && final(b).timers.last_genuine_rx == old(b).timers.last_genuine_rx && !final(b).stall_trigger.fired,
        final(b).probe == old(b).probe && final(b).swap_attempts == old(b).swap_attempts && final(b).probe_trigger == old(b).probe_trigger,
        final(a).timer_enabled == old(a).timer_enabled && final(m).timer_enabled == old(m).timer_enabled && final(g).timer_enabled == old(g).timer_enabled && final(b).timer_enabled
            == old(b).timer_enabled,
        final(a).probe_timeout == old(a).probe_timeout && final(m).probe_timeout == old(m).probe_timeout && final(g).probe_timeout == old(g).probe_timeout && final(b).probe_timeout
            == old(b).probe_timeout,
        final(a).keepalive_enabled == old(a).keepalive_enabled && final(m).keepalive_enabled
            == old(m).keepalive_enabled && final(g).keepalive_enabled == old(g).keepalive_enabled
            && final(b).keepalive_enabled == old(b).keepalive_enabled,
{
}

/// After an attempt the session is given up when two attempts were made or none could be,
/// and the peer has been silent as long as the answer was waited for or three such waits
/// have passed; with no keepalive out it never is.
pub proof fn when_a_session_is_reaped(
    l: &Liveness,
    now: Instant,
    spawned: bool,
    b: bool,
    wait: Duration,
)
    requires
        call_ensures(
            SessionTimers::effective_keepalive_probe_timeout,
            (&l.timers, l.probe_timeout, now),
            wait,
        ),
        call_ensures(Liveness::reap_after_attempt, (l, now, spawned), b),
        l.timers.last_genuine_rx@ <= now@,
        l.probe.oldest is Some ==> l.probe.oldest->0@ <= now@,
    ensures
        l.probe.oldest is None || wait@ == 0 ==> !b,
        spawned && l.swap_attempts < 2 ==> !b,
        l.probe.oldest is Some && wait@ > 0 && (!spawned || l.swap_attempts >= 2) ==> b == (now@
            >= l.probe.oldest->0@ + wait@ && (now@ >= l.timers.last_genuine_rx@ + wait@ || now@
            >= l.probe.oldest->0@ + 3 * wait@)),
{
}

/// A session that starts has its clocks at now, nothing unanswered and nothing fired, and
/// has a timer when any of the three features needs one.
pub proof fn a_session_starts_calm(
    keepalive_interval: Duration,
    idle_timeout: Duration,
    rotation: bool,
    now: Instant,
    keepalive_wait: Duration,
    cover_wait: Duration,
    l: Liveness,
)
    requires
        call_ensures(
            Liveness::new,
            (keepalive_interval, idle_timeout, rotation, now, keepalive_wait, cover_wait),
            l,
        ),
    ensures
        l.timer_enabled <==> keepalive_interval@ > 0 || idle_timeout@ > 0 || rotation,
        l.keepalive_enabled <==> keepalive_interval@ > 0,
        l.timers.idle_enabled <==> idle_timeout@ > 0,
        l.timers.last_rx == now && l.timers.last_genuine_rx == now,
        l.timers.next_keepalive@ == now@ + keepalive_wait@,
        l.timers.next_cover@ == now@ + cover_wait@,
        l.probe.oldest is None && !l.probe_trigger.fired && !l.stall_trigger.fired,
        l.swap_attempts == 0,
        l.probe_timeout == keepalive_interval,
{
}

/// When a session moves by itself and how: never when the feature is off, there are no
/// keys or the line that would carry the news is gone; only a rotation dials the same
/// address, if it is known, and everything else looks for another.
pub proof fn how_a_session_moves(
    controller: Option<bool>,
    reason: &str,
    has_keys: bool,
    has_uri: bool,
    a: StandbyAttempt,
    enabled: bool,
    fires: bool,
)
    requires
        call_ensures(fire_hot_standby_trigger, (controller, reason, has_keys, has_uri), a),
        call_ensures(hot_standby_should_auto_fire, (enabled, reason), fires),
    ensures
        a == StandbyAttempt::Skip <==> controller != Some(true) || !has_keys || reason@
            == "primary_closed"@,
        a == StandbyAttempt::SameAddress <==> controller == Some(true) && has_keys && has_uri
            && reason@ == "rotation_deadline"@,
        fires <==> enabled && reason@ != "primary_closed"@,
        !fires && enabled ==> a == StandbyAttempt::Skip,
{
    reveal_strlit("primary_closed");
    reveal_strlit("rotation_deadline");
    assert("primary_closed"@.len() == 14);
    assert("rotation_deadline"@.len() == 17);
}

/// A session wakes at the first of the moments at which anything is due, and at no other.
pub proof fn the_first_deadline_wakes(
    timers: &SessionTimers,
    battery_check: Instant,
    timer_enabled: bool,
    keepalive_enabled: bool,
    probe_fired: bool,
    probe_timeout: Duration,
    probe_since: Option<Instant>,
    stall_fired: bool,
    coalesce_until: Option<Instant>,
    rotation_deadline: Option<Instant>,
    r: Option<Instant>,
)
    requires
        call_ensures(
            compute_sleep_deadline,
            (
                timers,
                battery_check,
                timer_enabled,
                keepalive_enabled,
                probe_fired,
                probe_timeout,
                probe_since,
                stall_fired,
                coalesce_until,
                rotation_deadline,
            ),
            r,
        ),
    ensures
        r is Some,
        r->0@ <= battery_check@,
        timer_enabled ==> r->0@ <= timers.last_rx@ + timers.idle_timeout@,
        timer_enabled && timers.keepalive_enabled ==> r->0@ <= timers.next_keepalive@,
        timer_enabled && timers.cover_enabled ==> r->0@ <= timers.next_cover@,
        timer_enabled && timers.idle_enabled && !stall_fired ==> 3 * (r->0@ - timers.last_rx@)
            <= 2 * timers.idle_timeout@,
        timer_enabled && keepalive_enabled && !probe_fired && probe_timeout@ > 0 && probe_since
            is Some ==> r->0@ <= probe_since->0@ + probe_timeout@,
        coalesce_until is Some ==> r->0@ <= coalesce_until->0@,
        rotation_deadline is Some ==> r->0@ <= rotation_deadline->0@,
        !timer_enabled && coalesce_until is None && rotation_deadline is None ==> r->0@
            == battery_check@,
        r->0@ == battery_check@ || timer_enabled || coalesce_until is Some && r->0@
            == coalesce_until->0@ || rotation_deadline is Some && r->0@ == rotation_deadline->0@,
{
    let due = |at: nat|
        wakes(
            *timers,
            battery_check,
            timer_enabled,
            keepalive_enabled,
            probe_fired,
            probe_timeout@,
            probe_since,
            stall_fired,
            coalesce_until,
            rotation_deadline,
            at,
        );
    assert(due(battery_check@));
    assert(timer_enabled ==> due(timers.last_rx@ + timers.idle_timeout@));
    assert(timer_enabled && timers.keepalive_enabled ==> due(timers.next_keepalive@));
    assert(timer_enabled && timers.cover_enabled ==> due(timers.next_cover@));
    assert(timer_enabled && timers.idle_enabled && !stall_fired ==> due(
        timers.last_rx@ + timers.stall_span(),
    ));
    if timer_enabled && keepalive_enabled && !probe_fired && probe_timeout@ > 0 && probe_since
        is Some {
        assert(due(probe_since->0@ + probe_timeout@));
    }
    if coalesce_until is Some {
        assert(due(coalesce_until->0@));
    }
    if rotation_deadline is Some {
        assert(due(rotation_deadline->0@));
    }
}

/// A trigger fires once until it is cleared.
pub proof fn a_trigger_fires_once(
    t: &mut OnceTrigger,
    first: bool,
    t2: &mut OnceTrigger,
    second: bool,
    t3: &mut OnceTrigger,
    t4: &mut OnceTrigger,
    third: bool,
)
    requires
        call_ensures(OnceTrigger::try_fire, (t,), first),
        *old(t2) == *final(t),
        call_ensures(OnceTrigger::try_fire, (t2,), second),
        *old(t3) == *final(t2),
        call_ensures(OnceTrigger::clear, (t3,), ()),
        *old(t4) == *final(t3),
        call_ensures(OnceTrigger::try_fire, (t4,), third),
    ensures
        !second,
        third,
{
}

/// The oldest unanswered keepalive stays the oldest until an answer comes.
pub proof fn the_oldest_keepalive_is_kept(
    p: &mut PendingKeepaliveProbe,
    now: Instant,
    armed: bool,
    p2: &mut PendingKeepaliveProbe,
    later: Instant,
    again: bool,
)
    requires
        call_ensures(PendingKeepaliveProbe::try_arm, (p, now), armed),
        *old(p2) == *final(p),
        call_ensures(PendingKeepaliveProbe::try_arm, (p2, later), again),
    ensures
        armed == (old(p).oldest is None),
        armed ==> final(p2).oldest == Some(now),
        !armed ==> final(p2).oldest == old(p).oldest,
        !again,
{
}

/// Without keepalives or without a time to wait for their answers nothing is overdue, and
/// no tick changes what a session was configured with.
pub proof fn without_a_timeout_nothing_is_overdue(
    l: &mut Liveness,
    now: Instant,
    sealed: bool,
    keepalive_wait: Duration,
    cover_wait: Duration,
    t: Tick,
)
    requires
        call_ensures(Liveness::tick, (l, now, sealed, keepalive_wait, cover_wait), t),
    ensures
        t is Proceed && (!old(l).keepalive_enabled || old(l).probe_timeout@ == 0 || !old(l).timer_enabled) ==> t->probe == ProbeStage::Quiet,
        t is Proceed && t->probe == ProbeStage::Quiet ==> final(l).swap_attempts == old(l).swap_attempts && final(l).probe_trigger.fired == old(l).probe_trigger.fired,
        final(l).keepalive_enabled == old(l).keepalive_enabled,
        final(l).timer_enabled == old(l).timer_enabled,
        final(l).probe_timeout == old(l).probe_timeout,
        final(l).timers.keepalive_interval == old(l).timers.keepalive_interval,
        final(l).timers.idle_timeout == old(l).timers.idle_timeout,
        final(l).timers.idle_enabled == old(l).timers.idle_enabled,
        final(l).timers.keepalive_enabled == old(l).timers.keepalive_enabled,
        final(l).timers.cover_enabled == old(l).timers.cover_enabled,
        final(l).timers.last_realtime == old(l).timers.last_realtime,
{
}

} // verus!
