//! When a session sends keepalives and cover traffic, and when it has been silent
//! for too long.
//!
//! A session that carries media must notice a dead path quickly. While realtime
//! frames flow, keepalives are sent more often and their answers are waited for
//! less long; without such frames the configured times apply.

use crate::time::{Duration, Instant, NANOS_PER_SEC};
use vstd::prelude::*;

verus! {

/// A session without a genuine frame for this many idle timeouts is over.
pub const LIVENESS_CEILING_MULTIPLE: u32 = 3;

/// The longest wait between keepalives while realtime frames flow, in seconds.
pub const REALTIME_KEEPALIVE_INTERVAL: u64 = 2;

/// The longest wait for the answer to a keepalive while realtime frames flow, in
/// seconds.
pub const REALTIME_KEEPALIVE_PROBE_TIMEOUT: u64 = 5;

/// How long after a realtime frame a session counts as carrying media, in seconds.
pub const REALTIME_ACTIVITY_WINDOW: u64 = 20;

/// The wait between two cover frames, before it is spread, in seconds.
pub const COVER_TRAFFIC_INTERVAL: u64 = 30;

/// `secs` seconds in nanoseconds.
pub open spec fn secs(secs: u64) -> nat {
    (secs * NANOS_PER_SEC) as nat
}

/// The smaller of two numbers.
pub open spec fn least(a: nat, b: nat) -> nat {
    if a <= b {
        a
    } else {
        b
    }
}

/// The clocks of one session.
#[derive(Clone, Copy, Debug)]
pub struct SessionTimers {
    /// When the line was last active.
    pub last_rx: Instant,
    /// When the last frame came that shows a live peer.
    pub last_genuine_rx: Instant,
    /// When the last realtime frame passed.
    pub last_realtime: Option<Instant>,
    pub next_keepalive: Instant,
    pub next_cover: Instant,
    pub keepalive_interval: Duration,
    pub idle_timeout: Duration,
    pub keepalive_enabled: bool,
    pub idle_enabled: bool,
    pub cover_enabled: bool,
}

impl SessionTimers {
    /// Whether deadlines can be counted from every moment that is held.
    pub open spec fn in_range(self) -> bool {
        &&& self.last_rx.has_room()
        &&& self.last_genuine_rx.has_room()
    }

    /// The clocks of a session that starts at `now`. The waits until the first
    /// keepalive and the first cover frame are given; they are spread around the
    /// two intervals. A session without keepalives sends no cover frames.
    pub fn new(
        keepalive_interval: Duration,
        idle_timeout: Duration,
        now: Instant,
        keepalive_wait: Duration,
        cover_wait: Duration,
    ) -> (t: SessionTimers)
        requires
            now.has_room(),
        ensures
            t.in_range(),
            t.last_rx == now,
            t.last_genuine_rx == now,
            t.last_realtime is None,
            t.next_keepalive@ == now@ + keepalive_wait@,
            t.next_cover@ == now@ + cover_wait@,
            t.keepalive_interval == keepalive_interval,
            t.idle_timeout == idle_timeout,
            t.keepalive_enabled == (keepalive_interval@ > 0),
            t.idle_enabled == (idle_timeout@ > 0),
            t.cover_enabled == (keepalive_interval@ > 0),
    {
        proof {
            use_type_invariant(&keepalive_wait);
            use_type_invariant(&cover_wait);
        }
        let keepalive_enabled: bool = !keepalive_interval.is_zero();
        SessionTimers {
            last_rx: now,
            last_genuine_rx: now,
            last_realtime: None,
            next_keepalive: now.plus(keepalive_wait),
            next_cover: now.plus(cover_wait),
            keepalive_interval,
            idle_timeout,
            keepalive_enabled,
            idle_enabled: !idle_timeout.is_zero(),
            cover_enabled: keepalive_enabled,
        }
    }

    /// When the line was last active.
    pub fn last_rx(&self) -> (t: Instant)
        ensures
            t == self.last_rx,
    {
        self.last_rx
    }

    /// When the last genuine frame came.
    pub fn last_genuine_rx(&self) -> (t: Instant)
        ensures
            t == self.last_genuine_rx,
    {
        self.last_genuine_rx
    }

    /// Whether keepalives are sent.
    pub fn keepalive_enabled(&self) -> (b: bool)
        ensures
            b == self.keepalive_enabled,
    {
        self.keepalive_enabled
    }

    /// Whether a silent session is ended.
    pub fn idle_enabled(&self) -> (b: bool)
        ensures
            b == self.idle_enabled,
    {
        self.idle_enabled
    }

    /// Whether cover frames are sent.
    pub fn cover_enabled(&self) -> (b: bool)
        ensures
            b == self.cover_enabled,
    {
        self.cover_enabled
    }

    /// When the next keepalive is due.
    pub fn next_keepalive(&self) -> (t: Instant)
        ensures
            t == self.next_keepalive,
    {
        self.next_keepalive
    }

    /// When the next cover frame is due.
    pub fn next_cover(&self) -> (t: Instant)
        ensures
            t == self.next_cover,
    {
        self.next_cover
    }

    /// The moment at which the line has been idle for too long.
    pub fn idle_deadline(&self) -> (t: Instant)
        requires
            self.in_range(),
        ensures
            t@ == self.last_rx@ + self.idle_timeout@,
    {
        proof {
            use_type_invariant(&self.idle_timeout);
        }
        self.last_rx.plus(self.idle_timeout)
    }

    /// Two thirds of the idle timeout.
    pub open spec fn stall_span(self) -> nat {
        ((self.idle_timeout@ * 2) / 3) as nat
    }

    /// The moment at which the line counts as stalled: after two thirds of the
    /// idle timeout.
    pub fn stall_trigger_deadline(&self) -> (t: Instant)
        requires
            self.in_range(),
        ensures
            t@ == self.last_rx@ + self.stall_span(),
    {
        let span: Duration = self.idle_timeout.fraction(2, 3);
        proof {
            use_type_invariant(&span);
        }
        self.last_rx.plus(span)
    }

    /// Whether the line has been idle for too long.
    pub fn idle_timeout_elapsed(&self, now: Instant) -> (b: bool)
        ensures
            b == (self.idle_enabled && now.elapsed(self.last_rx) >= self.idle_timeout@),
    {
        self.idle_enabled && now.elapsed_at_least(self.last_rx, self.idle_timeout, 1)
    }

    /// Whether the line has stalled.
    pub fn rx_stall_elapsed(&self, now: Instant) -> (b: bool)
        ensures
            b == (self.idle_enabled && now.elapsed(self.last_rx) >= self.stall_span()),
    {
        self.idle_enabled && now.elapsed_at_least(self.last_rx, self.idle_timeout.fraction(2, 3), 1)
    }

    /// Whether no genuine frame has come for so long that the peer is gone,
    /// whatever else kept the line active.
    pub fn liveness_ceiling_elapsed(&self, now: Instant) -> (b: bool)
        ensures
            b == (self.idle_enabled && now.elapsed(self.last_genuine_rx) >= self.idle_timeout@
                * LIVENESS_CEILING_MULTIPLE),
    {
        self.idle_enabled && now.elapsed_at_least(
            self.last_genuine_rx,
            self.idle_timeout,
            LIVENESS_CEILING_MULTIPLE,
        )
    }

    /// How long ago the last genuine frame came.
    pub fn genuine_rx_age(&self, now: Instant) -> (d: Duration)
        requires
            now@ - self.last_genuine_rx@ <= crate::time::MAX_SPAN_NANOS,
        ensures
            d@ == now.elapsed(self.last_genuine_rx),
    {
        now.since(self.last_genuine_rx)
    }

    /// Notes that the line was active, without a sign that the peer is alive.
    pub fn note_rx_activity(&mut self, now: Instant)
        ensures
            *final(self) == (SessionTimers { last_rx: now, ..*old(self) }),
    {
        self.last_rx = now;
    }

    /// Notes a genuine frame.
    pub fn note_frame_received(&mut self, now: Instant)
        ensures
            *final(self) == (SessionTimers { last_rx: now, last_genuine_rx: now, ..*old(self) }),
    {
        self.last_rx = now;
        self.last_genuine_rx = now;
    }

    /// Notes that the session moved to another transport, which is activity but
    /// no sign that the peer is alive.
    pub fn note_swap(&mut self, now: Instant)
        ensures
            *final(self) == (SessionTimers { last_rx: now, ..*old(self) }),
    {
        self.last_rx = now;
    }

    /// Whether the session counts as carrying media at `now`.
    pub open spec fn carries_media(self, now: Instant) -> bool {
        self.last_realtime matches Some(t) && now.elapsed(t) < secs(REALTIME_ACTIVITY_WINDOW)
    }

    /// Whether the session counts as carrying media at `now`.
    pub fn realtime_active(&self, now: Instant) -> (b: bool)
        ensures
            b == self.carries_media(now),
    {
        match self.last_realtime {
            None => false,
            Some(t) => !now.elapsed_at_least(
                t,
                Duration::from_secs(REALTIME_ACTIVITY_WINDOW),
                1,
            ),
        }
    }

    /// The wait between keepalives at `now`, before it is spread.
    pub open spec fn keepalive_span(self, now: Instant) -> nat {
        if self.carries_media(now) {
            least(self.keepalive_interval@, secs(REALTIME_KEEPALIVE_INTERVAL))
        } else {
            self.keepalive_interval@
        }
    }

    /// The wait between keepalives while realtime frames flow.
    pub fn accel_keepalive_interval(&self) -> (d: Duration)
        ensures
            d@ == least(self.keepalive_interval@, secs(REALTIME_KEEPALIVE_INTERVAL)),
    {
        self.keepalive_interval.shorter(Duration::from_secs(REALTIME_KEEPALIVE_INTERVAL))
    }

    /// The wait between keepalives at `now`, before it is spread.
    pub fn effective_keepalive_interval(&self, now: Instant) -> (d: Duration)
        ensures
            d@ == self.keepalive_span(now),
    {
        if self.realtime_active(now) {
            self.accel_keepalive_interval()
        } else {
            self.keepalive_interval
        }
    }

    /// How long the answer to a keepalive is waited for at `now`, of a configured
    /// time. Nothing is waited for when the configured time is zero.
    pub open spec fn probe_span(self, base: nat, now: Instant) -> nat {
        if base == 0 || !self.carries_media(now) {
            base
        } else {
            least(base, secs(REALTIME_KEEPALIVE_PROBE_TIMEOUT))
        }
    }

    /// How long the answer to a keepalive is waited for at `now`.
    pub fn effective_keepalive_probe_timeout(&self, base: Duration, now: Instant) -> (d: Duration)
        ensures
            d@ == self.probe_span(base@, now),
    {
        if base.is_zero() || !self.realtime_active(now) {
            base
        } else {
            base.shorter(Duration::from_secs(REALTIME_KEEPALIVE_PROBE_TIMEOUT))
        }
    }

    /// The clocks after a realtime frame at `now`. The first frame after a pause
    /// pulls the next keepalive in, to `wait` from now at the latest; the frames
    /// behind it leave the schedule alone.
    pub open spec fn after_realtime(self, now: Instant, wait: nat, next: SessionTimers) -> bool {
        &&& next == SessionTimers {
            last_realtime: Some(now),
            next_keepalive: next.next_keepalive,
            ..self
        }
        &&& next.next_keepalive@ == if !self.keepalive_enabled || self.carries_media(now) {
            self.next_keepalive@
        } else {
            least(self.next_keepalive@, now@ + wait)
        }
    }

    /// Notes a realtime frame. `wait` is the accelerated keepalive interval,
    /// spread.
    pub fn note_realtime_activity(&mut self, now: Instant, wait: Duration)
        requires
            now.has_room(),
        ensures
            old(self).after_realtime(now, wait@, *final(self)),
    {
        let was_active: bool = self.realtime_active(now);
        self.last_realtime = Some(now);
        if !self.keepalive_enabled || was_active {
            return;
        }
        proof {
            use_type_invariant(&wait);
        }
        let pulled_in: Instant = now.plus(wait);
        self.next_keepalive = self.next_keepalive.earlier(pulled_in);
    }

    /// Whether a keepalive is due. If so, the next one is set to `wait` from now,
    /// the interval that applies, spread.
    pub fn keepalive_due_and_reschedule(&mut self, now: Instant, wait: Duration) -> (due: bool)
        requires
            now.has_room(),
        ensures
            due == (old(self).keepalive_enabled && now@ >= old(self).next_keepalive@),
            !due ==> *final(self) == *old(self),
            due ==> {
                &&& final(self).next_keepalive@ == now@ + wait@
                &&& *final(self) == (SessionTimers {
                    next_keepalive: final(self).next_keepalive,
                    ..*old(self)
                })
            },
    {
        if !self.keepalive_enabled || !now.not_before(self.next_keepalive) {
            return false;
        }
        proof {
            use_type_invariant(&wait);
        }
        self.next_keepalive = now.plus(wait);
        true
    }

    /// Whether a cover frame is due. If so, the next one is set to `wait` from
    /// now.
    pub fn cover_due_and_reschedule(&mut self, now: Instant, wait: Duration) -> (due: bool)
        requires
            now.has_room(),
        ensures
            due == (old(self).cover_enabled && now@ >= old(self).next_cover@),
            !due ==> *final(self) == *old(self),
            due ==> {
                &&& final(self).next_cover@ == now@ + wait@
                &&& *final(self) == (SessionTimers {
                    next_cover: final(self).next_cover,
                    ..*old(self)
                })
            },
    {
        if !self.cover_enabled || !now.not_before(self.next_cover) {
            return false;
        }
        proof {
            use_type_invariant(&wait);
        }
        self.next_cover = now.plus(wait);
        true
    }

    /// Changes the interval between keepalives, and sets the next one to `wait`
    /// from now: the interval that then applies, spread.
    pub fn update_keepalive_interval(&mut self, interval: Duration, now: Instant, wait: Duration)
        requires
            now.has_room(),
        ensures
            final(self).next_keepalive@ == now@ + wait@,
            *final(self) == (SessionTimers {
                keepalive_interval: interval,
                next_keepalive: final(self).next_keepalive,
                ..*old(self)
            }),
    {
        proof {
            use_type_invariant(&wait);
        }
        self.keepalive_interval = interval;
        self.next_keepalive = now.plus(wait);
    }
}

/// Activity that is no genuine frame, such as a received keepalive or a move to
/// another transport, keeps a session from idling but cannot hide that the peer
/// is gone: the moment at which the session ends for want of genuine frames stays
/// where it is.
pub proof fn activity_does_not_hide_a_dead_peer(t: SessionTimers, at: Instant, now: Instant)
    ensures
        ({
            let later = SessionTimers { last_rx: at, ..t };
            &&& now.elapsed(later.last_genuine_rx) == now.elapsed(t.last_genuine_rx)
            &&& later.idle_enabled == t.idle_enabled
            &&& later.idle_timeout == t.idle_timeout
        }),
{
}

/// A line that has been idle for too long has stalled before.
pub proof fn idle_line_has_stalled(t: SessionTimers, now: Instant)
    requires
        now.elapsed(t.last_rx) >= t.idle_timeout@,
    ensures
        now.elapsed(t.last_rx) >= t.stall_span(),
{
}

/// Realtime frames never slow a session down: neither the keepalives nor the
/// wait for their answers get longer than configured, and a wait that is switched
/// off stays off.
pub proof fn media_never_slows_keepalives(t: SessionTimers, base: nat, now: Instant)
    ensures
        t.keepalive_span(now) <= t.keepalive_interval@,
        t.probe_span(base, now) <= base,
        base == 0 ==> t.probe_span(base, now) == 0,
        base > 0 ==> t.probe_span(base, now) > 0,
{
}

/// Without a realtime frame in the last twenty seconds the configured times
/// apply.
pub proof fn acceleration_wears_off(t: SessionTimers, base: nat, now: Instant)
    requires
        t.last_realtime matches Some(at) ==> now.elapsed(at) >= secs(REALTIME_ACTIVITY_WINDOW),
    ensures
        t.keepalive_span(now) == t.keepalive_interval@,
        t.probe_span(base, now) == base,
{
}

/// A line counts as stalled after two thirds of the idle timeout and as dead after the
/// whole of it, both counted from the last activity; without a genuine frame for three
/// idle timeouts the peer is gone, whatever the activity. None of this holds of a session
/// without an idle timeout.
pub proof fn silence_is_measured(
    t: &SessionTimers,
    now: Instant,
    stalled: bool,
    idle: bool,
    gone: bool,
)
    requires
        t.last_rx@ <= now@,
        t.last_genuine_rx@ <= now@,
        call_ensures(SessionTimers::rx_stall_elapsed, (t, now), stalled),
        call_ensures(SessionTimers::idle_timeout_elapsed, (t, now), idle),
        call_ensures(SessionTimers::liveness_ceiling_elapsed, (t, now), gone),
    ensures
        idle == (t.idle_enabled && now@ >= t.last_rx@ + t.idle_timeout@),
        gone == (t.idle_enabled && now@ >= t.last_genuine_rx@ + 3 * t.idle_timeout@),
        stalled == (t.idle_enabled && 3 * (now@ - t.last_rx@) + 2 >= 2 * t.idle_timeout@),
        idle ==> stalled,
{
}

/// The deadlines of silence are the first moments at which it is found.
pub proof fn silence_is_found_at_its_deadline(
    t: &SessionTimers,
    stall_at: Instant,
    idle_at: Instant,
    now: Instant,
    stalled: bool,
    idle: bool,
)
    requires
        t.idle_enabled,
        t.last_rx@ <= now@,
        call_ensures(SessionTimers::stall_trigger_deadline, (t,), stall_at),
        call_ensures(SessionTimers::idle_deadline, (t,), idle_at),
        call_ensures(SessionTimers::rx_stall_elapsed, (t, now), stalled),
        call_ensures(SessionTimers::idle_timeout_elapsed, (t, now), idle),
    ensures
        stalled == (now@ >= stall_at@),
        idle == (now@ >= idle_at@),
        stall_at@ <= idle_at@,
        t.last_rx@ <= stall_at@,
{
}

/// For twenty seconds after a realtime frame keepalives go out every two seconds at
/// least, and their answers are waited for five seconds at most; at all other times the
/// configured times apply. A wait that is switched off stays off.
pub proof fn media_shortens_the_waits(
    t: &SessionTimers,
    base: Duration,
    now: Instant,
    every: Duration,
    wait: Duration,
    active: bool,
    fast: Duration,
)
    requires
        t.last_realtime is Some ==> t.last_realtime->0@ <= now@,
        call_ensures(SessionTimers::realtime_active, (t, now), active),
        call_ensures(SessionTimers::effective_keepalive_interval, (t, now), every),
        call_ensures(SessionTimers::effective_keepalive_probe_timeout, (t, base, now), wait),
        call_ensures(SessionTimers::accel_keepalive_interval, (t,), fast),
    ensures
        active == (t.last_realtime is Some && now@ < t.last_realtime->0@ + 20 * 1_000_000_000),
        !active ==> every@ == t.keepalive_interval@ && wait@ == base@,
        active ==> every@ == fast@,
        fast@ <= t.keepalive_interval@ && fast@ <= 2 * 1_000_000_000,
        fast@ == t.keepalive_interval@ || fast@ == 2 * 1_000_000_000,
        active ==> wait@ <= base@ && wait@ <= 5 * 1_000_000_000,
        wait@ == base@ || wait@ == 5 * 1_000_000_000,
        (wait@ == 0) == (base@ == 0),
{
}

/// A realtime frame brings the next keepalive forward at most once per period of media
/// and never puts it off; nothing else changes but when the last such frame came.
pub proof fn a_realtime_frame_brings_the_keepalive_forward(
    t: &mut SessionTimers,
    now: Instant,
    wait: Duration,
)
    requires
        old(t).last_realtime is Some ==> old(t).last_realtime->0@ <= now@,
        call_ensures(SessionTimers::note_realtime_activity, (t, now, wait), ()),
    ensures
        final(t).last_realtime == Some(now),
        final(t).next_keepalive@ <= old(t).next_keepalive@,
        old(t).last_realtime is Some && now@ < old(t).last_realtime->0@ + 20 * 1_000_000_000
            || !old(t).keepalive_enabled ==> final(t).next_keepalive@ == old(t).next_keepalive@,
        old(t).keepalive_enabled && (old(t).last_realtime is None || now@
            >= old(t).last_realtime->0@ + 20 * 1_000_000_000) ==> {
            &&& final(t).next_keepalive@ <= now@ + wait@
            &&& final(t).next_keepalive@ == old(t).next_keepalive@ || final(t).next_keepalive@
                == now@ + wait@
        },
        final(t).last_rx == old(t).last_rx,
        final(t).last_genuine_rx == old(t).last_genuine_rx,
        final(t).next_cover == old(t).next_cover,
        final(t).idle_timeout == old(t).idle_timeout,
        final(t).keepalive_interval == old(t).keepalive_interval,
{
}

/// A keepalive that was due is due again only after its wait.
pub proof fn a_keepalive_is_due_once(
    t: &mut SessionTimers,
    now: Instant,
    wait: Duration,
    due: bool,
    t2: &mut SessionTimers,
    later: Instant,
    wait2: Duration,
    again: bool,
)
    requires
        call_ensures(SessionTimers::keepalive_due_and_reschedule, (t, now, wait), due),
        *old(t2) == *final(t),
        call_ensures(SessionTimers::keepalive_due_and_reschedule, (t2, later, wait2), again),
    ensures
        due == (old(t).keepalive_enabled && old(t).next_keepalive@ <= now@),
        due ==> again == (later@ >= now@ + wait@),
        !due ==> *final(t) == *old(t),
        final(t).next_cover == old(t).next_cover,
        final(t).last_rx == old(t).last_rx,
        final(t).last_genuine_rx == old(t).last_genuine_rx,
{
}

/// A cover frame that was due is due again only after its wait.
pub proof fn a_cover_frame_is_due_once(
    t: &mut SessionTimers,
    now: Instant,
    wait: Duration,
    due: bool,
    t2: &mut SessionTimers,
    later: Instant,
    wait2: Duration,
    again: bool,
)
    requires
        call_ensures(SessionTimers::cover_due_and_reschedule, (t, now, wait), due),
        *old(t2) == *final(t),
        call_ensures(SessionTimers::cover_due_and_reschedule, (t2, later, wait2), again),
    ensures
        due == (old(t).cover_enabled && old(t).next_cover@ <= now@),
        due ==> again == (later@ >= now@ + wait@),
        !due ==> *final(t) == *old(t),
        final(t).next_keepalive == old(t).next_keepalive,
        final(t).last_rx == old(t).last_rx,
        final(t).last_genuine_rx == old(t).last_genuine_rx,
{
}

/// Only a genuine frame is a sign of life; activity and a move to another transport are
/// activity alone.
pub proof fn only_genuine_frames_are_a_sign_of_life(
    a: &mut SessionTimers,
    b: &mut SessionTimers,
    c: &mut SessionTimers,
    now: Instant,
)
    requires
        call_ensures(SessionTimers::note_rx_activity, (a, now), ()),
        call_ensures(SessionTimers::note_frame_received, (b, now), ()),
        call_ensures(SessionTimers::note_swap, (c, now), ()),
    ensures
        final(a).last_rx == now && final(b).last_rx == now && final(c).last_rx == now,
        final(a).last_genuine_rx == old(a).last_genuine_rx,
        final(b).last_genuine_rx == now,
        final(c).last_genuine_rx == old(c).last_genuine_rx,
        final(a).next_keepalive == old(a).next_keepalive && final(b).next_keepalive == old(b).next_keepalive && final(c).next_keepalive == old(c).next_keepalive,
        final(a).last_realtime == old(a).last_realtime && final(b).last_realtime == old(b).last_realtime && final(c).last_realtime == old(c).last_realtime,
{
}

} // verus!
