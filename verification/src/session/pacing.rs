//! When frames are held back, when congestion is signalled, and how long a
//! connection lives.

use crate::time::{Duration, Instant};
use vstd::prelude::*;

verus! {

/// The most urgent class that may be held back.
pub const FIRST_DEFERRABLE_PRIORITY: u8 = 2;

/// Says at most once per cooldown that the peer sends too much.
#[derive(Clone, Copy, Debug)]
pub struct BackpressureSignal {
    pub cooldown: Duration,
    pub last: Option<Instant>,
}

impl BackpressureSignal {
    /// Nothing was signalled yet.
    pub fn new(cooldown: Duration) -> (s: BackpressureSignal)
        ensures
            s.cooldown == cooldown,
            s.last is None,
    {
        BackpressureSignal { cooldown, last: None }
    }

    /// Whether a signal may be sent at `now`.
    pub open spec fn ready(self, now: Instant) -> bool {
        self.last matches Some(t) ==> now.elapsed(t) >= self.cooldown@
    }

    /// Whether a signal may be sent at `now`. If so, the cooldown starts anew.
    pub fn try_arm(&mut self, now: Instant) -> (armed: bool)
        ensures
            armed == old(self).ready(now),
            *final(self) == if old(self).ready(now) {
                BackpressureSignal { last: Some(now), ..*old(self) }
            } else {
                *old(self)
            },
    {
        let armed: bool = match self.last {
            None => true,
            Some(t) => now.elapsed_at_least(t, self.cooldown, 1),
        };
        if armed {
            self.last = Some(now);
        }
        armed
    }
}

/// After a signal no other one is sent before the cooldown is over.
pub proof fn signals_keep_apart(s: BackpressureSignal, at: Instant, now: Instant)
    requires
        now.elapsed(at) < s.cooldown@,
    ensures
        !(BackpressureSignal { last: Some(at), ..s }).ready(now),
{
}

/// Holds back frames that are not urgent, to wake the radio less often.
#[derive(Clone, Copy, Debug)]
pub struct OutboundBatchCoalescer {
    pub last_drain: Instant,
}

/// Whether frames with the given head of the queue may be held back.
pub open spec fn deferrable(window: Option<Duration>, head: Option<u8>) -> bool {
    window is Some && (head matches Some(p) && p >= FIRST_DEFERRABLE_PRIORITY)
}

impl OutboundBatchCoalescer {
    /// A queue that was drained at `now`.
    pub fn new(now: Instant) -> (c: OutboundBatchCoalescer)
        ensures
            c.last_drain == now,
    {
        OutboundBatchCoalescer { last_drain: now }
    }

    /// Whether the queue is held back at `now`.
    pub open spec fn holds(self, now: Instant, window: Option<Duration>, head: Option<u8>) -> bool {
        deferrable(window, head) && now@ < self.last_drain@ + window->0@
    }

    /// Whether the queue is held back at `now`.
    pub fn is_coalescing(&self, now: Instant, window: Option<Duration>, head: Option<u8>) -> (b: bool)
        ensures
            b == self.holds(now, window, head),
    {
        match (window, head) {
            (Some(w), Some(p)) => p >= FIRST_DEFERRABLE_PRIORITY && !now.reached(
                self.last_drain,
                w,
            ),
            _ => false,
        }
    }

    /// Until when the queue is held back.
    pub fn coalesce_deadline(&self, window: Option<Duration>, head: Option<u8>) -> (r: Option<
        Instant,
    >)
        requires
            self.last_drain.has_room(),
        ensures
            r is Some == deferrable(window, head),
            r matches Some(t) ==> t@ == self.last_drain@ + window->0@,
    {
        match (window, head) {
            (Some(w), Some(p)) => {
                if p >= FIRST_DEFERRABLE_PRIORITY {
                    proof {
                        use_type_invariant(&w);
                    }
                    Some(self.last_drain.plus(w))
                } else {
                    None
                }
            },
            _ => None,
        }
    }

    /// Notes that frames were taken from the queue at `now`.
    pub fn record_drain(&mut self, now: Instant)
        ensures
            final(self).last_drain == now,
    {
        self.last_drain = now;
    }
}

/// Urgent frames are never held back, and no frame is held back past the end of
/// the window.
pub proof fn batching_delay_is_bounded(
    c: OutboundBatchCoalescer,
    now: Instant,
    window: Option<Duration>,
    head: Option<u8>,
)
    ensures
        (head matches Some(p) && p < FIRST_DEFERRABLE_PRIORITY) ==> !c.holds(now, window, head),
        window is Some && now@ >= c.last_drain@ + window->0@ ==> !c.holds(now, window, head),
        window is None ==> !c.holds(now, window, head),
{
}

/// The shortest and the longest lifetime of a connection, in milliseconds, for a
/// configured range in seconds. A single value is spread by a tenth to both sides.
pub open spec fn lifetime_range(range: (u64, u64)) -> Option<(int, int)> {
    if range.1 == 0 {
        None
    } else if range.0 == 0 {
        Some((range.1 * 900, range.1 * 1100))
    } else {
        Some((range.0 * 1000, range.1 * 1000))
    }
}

/// The moment at which a connection has lived long enough.
#[derive(Clone, Copy, Debug)]
pub struct SessionRotationDeadline {
    pub deadline: Option<Instant>,
}

impl SessionRotationDeadline {
    /// The bounds between which a lifetime is drawn, in milliseconds.
    pub fn lifetime_bounds_ms(range: (u64, u64)) -> (r: Option<(u128, u128)>)
        ensures
            match lifetime_range(range) {
                None => r is None,
                Some((lo, hi)) => r matches Some((a, b)) && a == lo && b == hi,
            },
    {
        if range.1 == 0 {
            None
        } else if range.0 == 0 {
            Some((range.1 as u128 * 900, range.1 as u128 * 1100))
        } else {
            Some((range.0 as u128 * 1000, range.1 as u128 * 1000))
        }
    }

    /// A connection made at `now` that lives for `lifetime`, or without end.
    pub fn compute(now: Instant, lifetime: Option<Duration>) -> (d: SessionRotationDeadline)
        requires
            now.has_room(),
        ensures
            d.deadline is Some == lifetime is Some,
            d.deadline matches Some(t) ==> t@ == now@ + lifetime->0@,
    {
        match lifetime {
            None => SessionRotationDeadline { deadline: None },
            Some(d) => {
                proof {
                    use_type_invariant(&d);
                }
                SessionRotationDeadline { deadline: Some(now.plus(d)) }
            },
        }
    }

    /// The moment at which the connection has lived long enough.
    pub fn deadline(&self) -> (t: Option<Instant>)
        ensures
            t == self.deadline,
    {
        self.deadline
    }

    /// Whether the connection has lived long enough at `now`.
    pub open spec fn due(self, now: Instant) -> bool {
        self.deadline matches Some(t) && now@ >= t@
    }

    /// Whether the connection has lived long enough at `now`.
    pub fn is_due(&self, now: Instant) -> (b: bool)
        ensures
            b == self.due(now),
    {
        match self.deadline {
            None => false,
            Some(t) => now.not_before(t),
        }
    }
}

/// How far the keepalives of a device are stretched.
#[derive(Clone, Copy, Debug, PartialEq, Eq, Structural)]
pub enum BatteryScale {
    /// Not at all.
    Full,
    /// As for a battery that is half empty.
    Medium,
    /// As for a battery that is nearly empty.
    Low,
}

/// How far keepalives are stretched at a level in percent. A level of zero is that of
/// a device without a battery.
pub open spec fn scale_at(level: u8, low: u8, medium: u8) -> BatteryScale {
    if level == 0 {
        BatteryScale::Full
    } else if level < low {
        BatteryScale::Low
    } else if level < medium {
        BatteryScale::Medium
    } else {
        BatteryScale::Full
    }
}

/// How far keepalives are stretched at a level in percent, with the levels below which
/// a battery counts as nearly empty and as half empty.
pub fn battery_scale(level: u8, low: u8, medium: u8) -> (s: BatteryScale)
    ensures
        s == scale_at(level, low, medium),
{
    if level == 0 {
        BatteryScale::Full
    } else if level < low {
        BatteryScale::Low
    } else if level < medium {
        BatteryScale::Medium
    } else {
        BatteryScale::Full
    }
}

/// A signal is sent at once when none was, and then not before the cooldown is over.
pub proof fn signals_are_a_cooldown_apart(
    s: &mut BackpressureSignal,
    now: Instant,
    first: bool,
    t: &mut BackpressureSignal,
    later: Instant,
    second: bool,
)
    requires
        now@ <= later@,
        call_ensures(BackpressureSignal::try_arm, (s, now), first),
        *old(t) == *final(s),
        call_ensures(BackpressureSignal::try_arm, (t, later), second),
    ensures
        old(s).last is None ==> first,
        first ==> second == (later@ - now@ >= old(s).cooldown@),
        !first ==> *final(s) == *old(s),
        first ==> final(s).last == Some(now),
        final(s).cooldown == old(s).cooldown,
{
}

/// What is held back: frames that are neither media nor answers to a user, within the
/// window since the queue was last drained. The deadline is where holding back ends.
pub proof fn what_is_held_back(
    c: &OutboundBatchCoalescer,
    now: Instant,
    window: Option<Duration>,
    head: Option<u8>,
    held: bool,
    until: Option<Instant>,
)
    requires
        call_ensures(OutboundBatchCoalescer::is_coalescing, (c, now, window, head), held),
        call_ensures(OutboundBatchCoalescer::coalesce_deadline, (c, window, head), until),
    ensures
        held <==> window is Some && head is Some && head->0 >= 2 && now@ < c.last_drain@
            + window->0@,
        until is Some <==> window is Some && head is Some && head->0 >= 2,
        until is Some ==> held == (now@ < until->0@),
        until is None ==> !held,
{
}

/// A window starts when the queue is drained.
pub proof fn draining_starts_the_window(
    c: &mut OutboundBatchCoalescer,
    now: Instant,
    later: Instant,
    window: Duration,
    head: u8,
    held: bool,
)
    requires
        head >= 2,
        call_ensures(OutboundBatchCoalescer::record_drain, (c, now), ()),
        call_ensures(
            OutboundBatchCoalescer::is_coalescing,
            (&*final(c), later, Some(window), Some(head)),
            held,
        ),
    ensures
        held == (later@ < now@ + window@),
{
}

/// The bounds of a lifetime: in milliseconds those of the range, a single value a tenth
/// less and a tenth more, none where there is no range.
pub proof fn lifetimes_lie_in_their_range(range: (u64, u64), r: Option<(u128, u128)>)
    requires
        call_ensures(SessionRotationDeadline::lifetime_bounds_ms, (range,), r),
    ensures
        r is None <==> range.1 == 0,
        r is Some && range.0 > 0 ==> (r->0).0 == range.0 * 1000 && (r->0).1 == range.1 * 1000,
        r is Some && range.0 == 0 ==> 10 * (r->0).0 == 9 * (range.1 * 1000) && 10 * (r->0).1 == 11
            * (range.1 * 1000),
{
}

/// A connection is due for rotation exactly from the end of its lifetime on.
pub proof fn a_lifetime_ends(
    now: Instant,
    lifetime: Option<Duration>,
    d: SessionRotationDeadline,
    later: Instant,
    due: bool,
)
    requires
        call_ensures(SessionRotationDeadline::compute, (now, lifetime), d),
        call_ensures(SessionRotationDeadline::is_due, (&d, later), due),
    ensures
        due <==> lifetime is Some && later@ >= now@ + lifetime->0@,
{
}

/// Keepalives are stretched the more the emptier the battery is, and not at all without a
/// battery.
pub proof fn an_emptier_battery_stretches_more(
    level: u8,
    low: u8,
    medium: u8,
    s: BatteryScale,
)
    requires
        call_ensures(battery_scale, (level, low, medium), s),
    ensures
        level == 0 ==> s == BatteryScale::Full,
        level > 0 && level < low ==> s == BatteryScale::Low,
        level > 0 && level >= low && level < medium ==> s == BatteryScale::Medium,
        level >= low && level >= medium ==> s == BatteryScale::Full,
{
}

} // verus!
