//! Listeners that are opened for one request and close by themselves.

use crate::time::{Duration, Instant, MAX_POINT_NANOS};
use crate::transport::ephemeral::PortRange;
use crate::transport::error::{unsupported, Failure, TransportError};
use vstd::prelude::*;
use vstd::string::*;

verus! {

/// What is asked of a listener on demand.
#[derive(Clone, Debug)]
pub struct OnDemandConfig {
    /// The host to listen on.
    pub host: String,
    /// The ports to draw from.
    pub port_range: PortRange,
    /// Further attempts when a drawn port is taken.
    pub bind_retries: u32,
    /// How long the listener stays.
    pub ttl: Duration,
    /// How many connections it takes.
    pub max_accepts: usize,
}

impl OnDemandConfig {
    /// Why nothing can be opened with these settings; nothing when something can.
    pub open spec fn fault(self) -> Option<Failure> {
        if self.ttl@ == 0 {
            Some(Failure::Unsupported("on-demand: ttl must be > 0"@))
        } else if self.max_accepts == 0 {
            Some(Failure::Unsupported("on-demand: max_accepts must be > 0"@))
        } else {
            None
        }
    }

    /// Refuses settings with which nothing can be opened.
    pub fn validate(&self) -> (r: Result<(), TransportError>)
        ensures
            match self.fault() {
                None => r is Ok,
                Some(f) => r matches Err(e) && e@ == f,
            },
    {
        if self.ttl.is_zero() {
            return Err(unsupported("on-demand: ttl must be > 0"));
        }
        if self.max_accepts == 0 {
            return Err(unsupported("on-demand: max_accepts must be > 0"));
        }
        Ok(())
    }
}

/// How long a listener on demand goes on: until a point in time, for a number of
/// connections, and until it is told to stop.
#[derive(Debug)]
pub struct OnDemandLifecycle {
    expires_at: Instant,
    accepts_remaining: usize,
    stopped: bool,
}

/// The content of an [`OnDemandLifecycle`].
#[verifier::ext_equal]
pub ghost struct Lifetime {
    /// When it ends at the latest.
    pub expires_at: Instant,
    /// Connections that it still takes.
    pub remaining: nat,
    /// Whether it was told to stop.
    pub stopped: bool,
}

impl View for OnDemandLifecycle {
    type V = Lifetime;

    closed spec fn view(&self) -> Lifetime {
        Lifetime {
            expires_at: self.expires_at,
            remaining: self.accepts_remaining as nat,
            stopped: self.stopped,
        }
    }
}

impl Lifetime {
    /// Whether it is over.
    pub open spec fn over(self, now: Instant) -> bool {
        now@ >= self.expires_at@ || self.remaining == 0 || self.stopped
    }

    /// What is left after one connection.
    pub open spec fn after_accept(self) -> Lifetime {
        if self.remaining == 0 {
            self
        } else {
            Lifetime { remaining: (self.remaining - 1) as nat, ..self }
        }
    }

    /// What is left after a number of connections.
    pub open spec fn after_accepts(self, n: nat) -> Lifetime
        decreases n,
    {
        if n == 0 {
            self
        } else {
            self.after_accepts((n - 1) as nat).after_accept()
        }
    }
}

impl OnDemandLifecycle {
    /// A lifetime that begins now.
    pub fn new(now: Instant, ttl: Duration, max_accepts: usize) -> (l: OnDemandLifecycle)
        requires
            now@ + ttl@ <= MAX_POINT_NANOS,
        ensures
            l@.expires_at@ == now@ + ttl@,
            l@.remaining == max_accepts,
            !l@.stopped,
    {
        OnDemandLifecycle {
            expires_at: now.plus(ttl),
            accepts_remaining: max_accepts,
            stopped: false,
        }
    }

    /// Counts one connection, and returns how many were still taken before it: 1 for
    /// the last one, 0 for one too many.
    pub fn note_accept(&mut self) -> (prev: usize)
        ensures
            prev == old(self)@.remaining,
            final(self)@ == old(self)@.after_accept(),
    {
        let prev: usize = self.accepts_remaining;
        if prev > 0 {
            self.accepts_remaining = prev - 1;
        }
        prev
    }

    /// Whether the listener is to be closed.
    pub fn should_exit(&self, now: Instant) -> (b: bool)
        ensures
            b == self@.over(now),
    {
        now.not_before(self.expires_at) || self.accepts_remaining == 0 || self.stopped
    }

    /// Has the listener closed at once.
    pub fn shutdown(&mut self)
        ensures
            final(self)@ == (Lifetime { stopped: true, ..old(self)@ }),
    {
        self.stopped = true;
    }

    /// Connections that are still taken.
    pub fn accepts_remaining(&self) -> (n: usize)
        ensures
            n == self@.remaining,
    {
        self.accepts_remaining
    }

    /// When the listener closes at the latest.
    pub fn expires_at(&self) -> (t: Instant)
        ensures
            t == self@.expires_at,
    {
        self.expires_at
    }
}

/// A listener on demand: where it is to be opened, and how long it goes on.
#[derive(Debug)]
pub struct OnDemandSlot {
    pub host: String,
    pub port: u16,
    pub lifecycle: OnDemandLifecycle,
}

/// The listener that goes with valid settings and a free port.
pub fn open_slot(config: OnDemandConfig, port: u16, now: Instant) -> (s: OnDemandSlot)
    requires
        config.fault() is None,
        now.has_room(),
    ensures
        s.host == config.host,
        s.port == port,
        s.lifecycle@.expires_at@ == now@ + config.ttl@,
        s.lifecycle@.remaining == config.max_accepts,
        !s.lifecycle@.stopped,
        !s.lifecycle@.over(now),
{
    let ttl: u128 = config.ttl.as_nanos();
    assert(now@ + ttl <= MAX_POINT_NANOS);
    let lifecycle = OnDemandLifecycle::new(now, config.ttl, config.max_accepts);
    OnDemandSlot { host: config.host, port, lifecycle }
}

/// Counting connections never takes more than the budget: after any number of them
/// what is left is the budget less that number, and nothing below nothing.
pub proof fn budget_is_spent_once(l: Lifetime, n: nat)
    ensures
        l.after_accepts(n).remaining == if n <= l.remaining { (l.remaining - n) as nat } else { 0 },
        l.after_accepts(n).expires_at == l.expires_at,
        l.after_accepts(n).stopped == l.stopped,
        forall|now: Instant| n >= l.remaining ==> #[trigger] l.after_accepts(n).over(now),
    decreases n,
{
    if n > 0 {
        budget_is_spent_once(l, (n - 1) as nat);
    }
}

/// What is over stays over: later, after further connections, and after being told
/// to stop.
pub proof fn retirement_is_lasting(l: Lifetime, now: Instant, later: Instant, n: nat)
    requires
        l.over(now),
        now@ <= later@,
    ensures
        l.over(later),
        l.after_accepts(n).over(later),
        (Lifetime { stopped: true, ..l }).over(later),
{
    budget_is_spent_once(l, n);
}

/// A listener on demand needs some time and some connections, or nothing is opened; the
/// want of time is found first.
pub proof fn a_slot_needs_time_and_connections(
    c: &OnDemandConfig,
    r: Result<(), TransportError>,
)
    requires
        call_ensures(OnDemandConfig::validate, (c,), r),
    ensures
        r is Ok <==> c.ttl@ > 0 && c.max_accepts > 0,
        r is Err ==> r->Err_0 is Unsupported,
{
}

/// A listener goes on from its start until its time is up, its connections are used up or
/// it is told to stop, whichever comes first.
pub proof fn when_a_slot_closes(
    now: Instant,
    ttl: Duration,
    max_accepts: usize,
    l: OnDemandLifecycle,
    later: Instant,
    over: bool,
)
    requires
        call_ensures(OnDemandLifecycle::new, (now, ttl, max_accepts), l),
        call_ensures(OnDemandLifecycle::should_exit, (&l, later), over),
    ensures
        over <==> later@ >= now@ + ttl@ || max_accepts == 0,
{
}

/// Each connection uses one up, the last of them closes the listener, and one too many
/// changes nothing.
pub proof fn each_connection_is_counted(
    l: &mut OnDemandLifecycle,
    before: usize,
    prev: usize,
    after: usize,
    now: Instant,
    over: bool,
)
    requires
        call_ensures(OnDemandLifecycle::accepts_remaining, (&*old(l),), before),
        call_ensures(OnDemandLifecycle::note_accept, (l,), prev),
        call_ensures(OnDemandLifecycle::accepts_remaining, (&*final(l),), after),
        call_ensures(OnDemandLifecycle::should_exit, (&*final(l), now), over),
    ensures
        prev == before,
        before > 0 ==> after == before - 1,
        before == 0 ==> after == 0,
        before <= 1 ==> over,
        before > 1 && now@ < old(l)@.expires_at@ && !old(l)@.stopped ==> !over,
        final(l)@.expires_at == old(l)@.expires_at && final(l)@.stopped == old(l)@.stopped,
{
}

/// A listener that is told to stop closes at once, with its other bounds as they were.
pub proof fn a_stopped_slot_closes(l: &mut OnDemandLifecycle, now: Instant, over: bool)
    requires
        call_ensures(OnDemandLifecycle::shutdown, (l,), ()),
        call_ensures(OnDemandLifecycle::should_exit, (&*final(l), now), over),
    ensures
        over,
        final(l)@.remaining == old(l)@.remaining && final(l)@.expires_at == old(l)@.expires_at,
{
}

/// A listener is opened where and for as long as it was asked for.
pub proof fn a_slot_is_what_was_asked_for(
    c: OnDemandConfig,
    port: u16,
    now: Instant,
    s: OnDemandSlot,
    left: usize,
    until: Instant,
)
    requires
        call_ensures(open_slot, (c, port, now), s),
        call_ensures(OnDemandLifecycle::accepts_remaining, (&s.lifecycle,), left),
        call_ensures(OnDemandLifecycle::expires_at, (&s.lifecycle,), until),
    ensures
        s.host@ == c.host@ && s.port == port,
        left == c.max_accepts,
        until@ == now@ + c.ttl@,
{
}

} // verus!
