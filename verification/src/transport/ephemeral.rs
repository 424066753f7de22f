//! Listening on a port that is drawn from a range.

use crate::text::{decimal, decimal_of};
use crate::transport::error::{framed, joined, Failure, IoError, IoErrorKind, TransportError};
use rand::Rng;
use vstd::prelude::*;
use vstd::string::*;

verus! {

/// Further attempts that are made when a drawn port is taken.
pub const DEFAULT_BIND_RETRIES: u32 = 64;

/// The ports from one to another, both included. There is none where the first is
/// above the last.
#[derive(Clone, Copy, Debug, PartialEq, Eq, Structural)]
pub struct PortRange {
    pub low: u16,
    pub high: u16,
}

impl PortRange {
    /// The ports from `low` to `high`.
    pub fn new(low: u16, high: u16) -> (r: PortRange)
        ensures
            r == (PortRange { low, high }),
    {
        PortRange { low, high }
    }

    /// Whether a port is in the range.
    pub open spec fn has(self, port: u16) -> bool {
        self.low <= port <= self.high
    }

    /// The first port.
    pub fn start(&self) -> (p: &u16)
        ensures
            *p == self.low,
    {
        &self.low
    }

    /// The last port.
    pub fn end(&self) -> (p: &u16)
        ensures
            *p == self.high,
    {
        &self.high
    }

    /// How the range is written.
    pub open spec fn words(self) -> Seq<char> {
        decimal_of(self.low as nat) + "..="@ + decimal_of(self.high as nat)
    }

    /// How the range is written.
    pub fn text(&self) -> (s: String)
        ensures
            s@ == self.words(),
    {
        let a: String = decimal(self.low as u128);
        let b: String = decimal(self.high as u128);
        framed(a.as_str(), "..=", b.as_str())
    }
}

/// Calls `rand`'s `Rng::random_range` on the generator of the thread, for a range
/// that is not empty. The port is in the range; which one it is, is drawn. The call
/// panics when the operating system has no randomness to seed the generator with.
#[verifier::external_body]
fn random_port(low: u16, high: u16) -> (p: u16)
    requires
        low <= high,
    ensures
        low <= p <= high,
{
    rand::rng().random_range(low..=high)
}

/// What to do next on the way to a listener.
pub enum BindStep {
    /// Try to listen on this port.
    Try(u16),
    /// Use the listener on this port.
    Use(u16),
    /// Give up.
    Fail(TransportError),
}

/// How the attempt on a port ended.
pub enum BindEvent {
    /// There is a listener.
    Bound,
    /// The attempt failed.
    Failed(IoError),
}

/// The attempts to listen on a drawn port.
pub struct RandomBind {
    range: PortRange,
    left: u32,
    port: u16,
    last: Option<IoError>,
}

/// The content of a [`RandomBind`].
#[verifier::ext_equal]
pub ghost struct BindState {
    /// The ports that are drawn from.
    pub range: PortRange,
    /// Attempts that are left.
    pub left: nat,
    /// The port that was last drawn.
    pub port: u16,
    /// What the last attempt failed with.
    pub last: Option<Seq<char>>,
}

impl View for RandomBind {
    type V = BindState;

    closed spec fn view(&self) -> BindState {
        BindState {
            range: self.range,
            left: self.left as nat,
            port: self.port,
            last: match self.last {
                Some(e) => Some(e.message@),
                None => None,
            },
        }
    }
}

impl BindState {
    /// The attempts at their beginning: one, and the given number of further ones,
    /// as far as they can be counted.
    pub open spec fn fresh(range: PortRange, bind_retries: u32) -> BindState {
        BindState {
            range,
            left: if bind_retries == u32::MAX {
                u32::MAX as nat
            } else {
                (bind_retries + 1) as nat
            },
            port: range.low,
            last: None,
        }
    }

    /// Whether going on from `self` with `port` drawn leads to `next` by `step`.
    pub open spec fn goes_on(self, port: u16, step: BindStep, next: BindState) -> bool {
        if self.left > 0 {
            step == BindStep::Try(port) && next == (BindState {
                left: (self.left - 1) as nat,
                port,
                ..self
            })
        } else {
            step matches BindStep::Fail(e) && e@ == Failure::Io(
                IoErrorKind::AddrInUse,
                match self.last {
                    Some(m) => m,
                    None => "all bind attempts exhausted"@,
                },
            ) && next == (BindState { last: None, ..self })
        }
    }

    /// What is kept of a failure that leaves room for another attempt.
    pub open spec fn after_taken(self, e: IoError) -> BindState {
        BindState { last: Some(e.message@), ..self }
    }
}

impl RandomBind {
    #[verifier::type_invariant]
    spec fn well_formed(self) -> bool {
        &&& self.range.low <= self.range.high
        &&& self.range.has(self.port)
        &&& self.last matches Some(e) ==> e.kind == IoErrorKind::AddrInUse
    }

    /// Attempts on a range, which must have a port.
    pub fn new(range: PortRange, bind_retries: u32) -> (r: Result<RandomBind, TransportError>)
        ensures
            match r {
                Ok(b) => range.low <= range.high && b@ == BindState::fresh(range, bind_retries),
                Err(e) => range.low > range.high && e@ == Failure::Unsupported(
                    "ephemeral port range invalid: "@ + range.words(),
                ),
            },
    {
        if range.low > range.high {
            let t: String = range.text();
            return Err(
                TransportError::Unsupported(joined("ephemeral port range invalid: ", t.as_str())),
            );
        }
        Ok(
            RandomBind { range, left: bind_retries.saturating_add(1), port: range.low, last: None },
        )
    }

    /// The ports that are drawn from.
    pub fn range(&self) -> (r: PortRange)
        ensures
            r == self@.range,
            r.low <= r.high,
    {
        proof {
            use_type_invariant(self);
        }
        self.range
    }

    /// The next step, with a port that was drawn.
    pub fn advance_with(&mut self, port: u16) -> (s: BindStep)
        requires
            old(self)@.range.has(port),
        ensures
            old(self)@.goes_on(port, s, final(self)@),
    {
        proof {
            use_type_invariant(&*self);
        }
        if self.left > 0 {
            self.left = self.left - 1;
            self.port = port;
            return BindStep::Try(port);
        }
        let mut last: Option<IoError> = None;
        std::mem::swap(&mut last, &mut self.last);
        match last {
            Some(e) => BindStep::Fail(TransportError::Io(e)),
            None => BindStep::Fail(
                TransportError::Io(
                    IoError {
                        kind: IoErrorKind::AddrInUse,
                        message: String::from_str("all bind attempts exhausted"),
                    },
                ),
            ),
        }
    }

    /// The next step, with a port that is drawn now.
    pub fn advance(&mut self) -> (s: BindStep)
        ensures
            exists|port: u16| old(self)@.range.has(port) && #[trigger] old(self)@.goes_on(
                port,
                s,
                final(self)@,
            ),
    {
        proof {
            use_type_invariant(&*self);
        }
        let port: u16 = random_port(self.range.low, self.range.high);
        self.advance_with(port)
    }

    /// What the attempt on the port that was last drawn comes to; nothing when
    /// another attempt is to be made. Only a port that is taken leads to one.
    pub fn settle(&mut self, event: BindEvent) -> (s: Option<BindStep>)
        ensures
            match event {
                BindEvent::Bound => s == Some(BindStep::Use(old(self)@.port)) && final(self)@
                    == old(self)@,
                BindEvent::Failed(e) => if e.kind == IoErrorKind::AddrInUse {
                    s is None && final(self)@ == old(self)@.after_taken(e)
                } else {
                    s == Some(BindStep::Fail(TransportError::Io(e))) && final(self)@ == old(self)@
                },
            },
    {
        proof {
            use_type_invariant(&*self);
        }
        match event {
            BindEvent::Bound => Some(BindStep::Use(self.port)),
            BindEvent::Failed(e) => match e.kind {
                IoErrorKind::AddrInUse => {
                    self.last = Some(e);
                    None
                },
                IoErrorKind::Other => Some(BindStep::Fail(TransportError::Io(e))),
            },
        }
    }

    /// The step after the attempt on the port that was last drawn.
    pub fn step(&mut self, event: BindEvent) -> (s: BindStep)
        ensures
            match event {
                BindEvent::Bound => s == BindStep::Use(old(self)@.port) && final(self)@ == old(
                    self,
                )@,
                BindEvent::Failed(e) => if e.kind == IoErrorKind::AddrInUse {
                    exists|port: u16| old(self)@.range.has(port) && #[trigger] old(
                        self,
                    )@.after_taken(e).goes_on(port, s, final(self)@)
                } else {
                    s == BindStep::Fail(TransportError::Io(e)) && final(self)@ == old(self)@
                },
            },
    {
        match self.settle(event) {
            Some(s) => s,
            None => self.advance(),
        }
    }
}

/// Whatever is drawn, a port that is tried lies in the range, and there are never
/// more attempts than one and the further ones that were asked for.
pub proof fn tried_ports_lie_in_the_range(s: BindState, port: u16, step: BindStep, next: BindState)
    requires
        s.range.has(port),
        s.goes_on(port, step, next),
    ensures
        step matches BindStep::Try(p) ==> s.range.has(p) && next.left + 1 == s.left,
        next.range == s.range,
        next.left <= s.left,
{
}

/// Without further attempts asked for there is exactly one.
pub proof fn no_retries_is_single_shot(range: PortRange)
    ensures
        BindState::fresh(range, 0).left == 1,
{
}

/// Attempts need a range with a port; there is one and the further ones that were asked
/// for, each on the port that was drawn, and then the failure that a taken port is.
pub proof fn attempts_are_made_as_often_as_asked(
    range: PortRange,
    retries: u32,
    r: Result<RandomBind, TransportError>,
)
    requires
        call_ensures(RandomBind::new, (range, retries), r),
    ensures
        r is Ok <==> range.low <= range.high,
        r is Err ==> r->Err_0 is Unsupported,
        r is Ok ==> r->Ok_0@.range == range,
        r is Ok && retries < u32::MAX ==> r->Ok_0@.left == retries + 1,
        r is Ok && retries == u32::MAX ==> r->Ok_0@.left == u32::MAX,
        r is Ok ==> r->Ok_0@.last is None,
{
}

/// While attempts are left the drawn port is tried and one attempt is used up; then the
/// address counts as taken, with the words of the last failure.
pub proof fn a_drawn_port_is_tried(b: &mut RandomBind, port: u16, s: BindStep)
    requires
        call_ensures(RandomBind::advance_with, (b, port), s),
    ensures
        old(b)@.left > 0 ==> s == BindStep::Try(port) && final(b)@.left == old(b)@.left - 1
            && final(b)@.port == port && final(b)@.last == old(b)@.last,
        old(b)@.left == 0 ==> s is Fail && s->Fail_0@ is Io && s->Fail_0@->Io_0
            == IoErrorKind::AddrInUse,
        old(b)@.left == 0 && old(b)@.last is Some ==> s->Fail_0@->Io_1 == old(b)@.last->0,
        final(b)@.range == old(b)@.range,
{
}

/// A port that is free is used, a taken one leads to another attempt within the range while
/// any are left, and any other failure ends the attempts as it is.
pub proof fn what_becomes_of_an_attempt(b: &mut RandomBind, event: BindEvent, s: BindStep)
    requires
        call_ensures(RandomBind::step, (b, event), s),
    ensures
        event is Bound ==> s == BindStep::Use(old(b)@.port),
        event is Failed && event->Failed_0.kind != IoErrorKind::AddrInUse ==> s == BindStep::Fail(
            TransportError::Io(event->Failed_0),
        ),
        event is Failed && event->Failed_0.kind == IoErrorKind::AddrInUse && old(b)@.left > 0 ==> s
            is Try && old(b)@.range.low <= s->Try_0 <= old(b)@.range.high && final(b)@.left == old(b)@.left - 1 && final(b)@.port == s->Try_0,
        event is Failed && event->Failed_0.kind == IoErrorKind::AddrInUse && old(b)@.left == 0
            ==> s is Fail && s->Fail_0@ == Failure::Io(
            IoErrorKind::AddrInUse,
            event->Failed_0.message@,
        ),
        final(b)@.range == old(b)@.range,
{
}

/// What an attempt comes to before another port is drawn.
pub proof fn only_a_taken_port_is_followed_by_another(
    b: &mut RandomBind,
    event: BindEvent,
    s: Option<BindStep>,
)
    requires
        call_ensures(RandomBind::settle, (b, event), s),
    ensures
        s is None <==> event is Failed && event->Failed_0.kind == IoErrorKind::AddrInUse,
        s is None ==> final(b)@.last == Some(event->Failed_0.message@),
        event is Bound ==> s == Some(BindStep::Use(old(b)@.port)),
        final(b)@.left == old(b)@.left && final(b)@.range == old(b)@.range && final(b)@.port
            == old(b)@.port,
{
}

} // verus!
