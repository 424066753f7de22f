//! Counting failed writes until another transport should be tried.

use vstd::prelude::*;

verus! {

/// Whether the failure that was just counted calls for another transport.
#[derive(Clone, Copy, Debug, PartialEq, Eq, Structural)]
pub enum TriggerFire {
    Yes,
    No,
}

/// Counts failed writes over the life of a session. A successful write does not
/// reset the count. A threshold of zero never fires.
#[derive(Clone, Copy, Debug)]
pub struct WriteErrorTracker {
    count: u32,
    threshold: u32,
}

/// The count and the threshold of a tracker.
pub struct TrackerState {
    pub count: u32,
    pub threshold: u32,
}

impl View for WriteErrorTracker {
    type V = TrackerState;

    closed spec fn view(&self) -> TrackerState {
        TrackerState { count: self.count, threshold: self.threshold }
    }
}

impl TrackerState {
    /// The state after one more failure.
    pub open spec fn failed(self) -> TrackerState {
        TrackerState {
            count: if self.count == u32::MAX {
                u32::MAX
            } else {
                (self.count + 1) as u32
            },
            ..self
        }
    }

    /// Whether the threshold is set and reached.
    pub open spec fn reached(self) -> bool {
        self.threshold > 0 && self.count >= self.threshold
    }
}

impl WriteErrorTracker {
    /// A tracker that has seen no failure.
    pub fn new(threshold: u32) -> (t: WriteErrorTracker)
        ensures
            t@ == (TrackerState { count: 0, threshold }),
    {
        WriteErrorTracker { count: 0, threshold }
    }

    /// A tracker that has already seen `count` failures.
    pub fn with_count(threshold: u32, count: u32) -> (t: WriteErrorTracker)
        ensures
            t@ == (TrackerState { count, threshold }),
    {
        WriteErrorTracker { count, threshold }
    }

    /// Counts one failure, up to the largest number that can be counted, and
    /// says whether the threshold is reached.
    pub fn on_error(&mut self) -> (fire: TriggerFire)
        ensures
            final(self)@ == old(self)@.failed(),
            fire == if old(self)@.failed().reached() {
                TriggerFire::Yes
            } else {
                TriggerFire::No
            },
    {
        self.count = self.count.saturating_add(1);
        if self.threshold > 0 && self.count >= self.threshold {
            TriggerFire::Yes
        } else {
            TriggerFire::No
        }
    }

    /// How many failures were counted.
    pub fn count(&self) -> (n: u32)
        ensures
            n == self@.count,
    {
        self.count
    }

    /// The threshold.
    pub fn threshold(&self) -> (n: u32)
        ensures
            n == self@.threshold,
    {
        self.threshold
    }
}

/// Once the threshold is reached, every further failure reaches it too.
pub proof fn reached_threshold_stays_reached(s: TrackerState)
    requires
        s.reached(),
    ensures
        s.failed().reached(),
{
}

/// Without a threshold nothing ever reaches it.
pub proof fn zero_threshold_is_never_reached(s: TrackerState)
    requires
        s.threshold == 0,
    ensures
        !s.failed().reached(),
        s.failed().threshold == 0,
{
}

/// The tracker fires at the failure with which the threshold is reached and at every one
/// after it, and never where the threshold is zero.
pub proof fn failures_fire_from_the_threshold_on(
    t: &mut WriteErrorTracker,
    fire: TriggerFire,
    n: u32,
    m: u32,
    u: &mut WriteErrorTracker,
    again: TriggerFire,
)
    requires
        call_ensures(WriteErrorTracker::count, (&*old(t),), n),
        call_ensures(WriteErrorTracker::on_error, (t,), fire),
        call_ensures(WriteErrorTracker::count, (&*final(t),), m),
        *old(u) == *final(t),
        call_ensures(WriteErrorTracker::on_error, (u,), again),
    ensures
        n < u32::MAX ==> m == n + 1,
        n == u32::MAX ==> m == n,
        fire == TriggerFire::Yes <==> old(t)@.threshold > 0 && m >= old(t)@.threshold,
        fire == TriggerFire::Yes ==> again == TriggerFire::Yes,
        final(t)@.threshold == old(t)@.threshold,
{
}

/// A tracker starts with the threshold it is given and no failure, or as many as are told.
pub proof fn trackers_start_as_told(
    threshold: u32,
    count: u32,
    a: WriteErrorTracker,
    b: WriteErrorTracker,
    n: u32,
    m: u32,
    x: u32,
    y: u32,
)
    requires
        call_ensures(WriteErrorTracker::new, (threshold,), a),
        call_ensures(WriteErrorTracker::with_count, (threshold, count), b),
        call_ensures(WriteErrorTracker::count, (&a,), n),
        call_ensures(WriteErrorTracker::count, (&b,), m),
        call_ensures(WriteErrorTracker::threshold, (&a,), x),
        call_ensures(WriteErrorTracker::threshold, (&b,), y),
    ensures
        n == 0 && m == count && x == threshold && y == threshold,
{
}

} // verus!
