//! Trying the addresses of a host, one after another.

use crate::text::{decimal, decimal_of};
use crate::time::Duration;
use crate::transport::error::{connect_timeout, framed, Failure, TransportError};
use crate::transport::traits::SocketAddress;
use vstd::prelude::*;
use vstd::string::*;

verus! {

/// How the attempt on one address ended.
pub enum DialEvent {
    /// There is a connection.
    Connected,
    /// The attempt failed.
    Failed(TransportError),
    /// The attempt took too long.
    TimedOut,
}

/// What to do next.
pub enum DialStep {
    /// Try this address.
    Try(SocketAddress),
    /// Use the connection to this address.
    Use(SocketAddress),
    /// Give up.
    Fail(TransportError),
}

/// The addresses of a host, and how far they were tried.
pub struct Dial {
    addrs: Vec<SocketAddress>,
    tried: usize,
    last: Option<TransportError>,
    timeout: Duration,
    abort_on_timeout: bool,
    host: String,
    port: u16,
}

/// The content of a [`Dial`].
#[verifier::ext_equal]
pub ghost struct DialState {
    /// The addresses, in the order in which they are tried.
    pub addrs: Seq<SocketAddress>,
    /// How many were tried.
    pub tried: nat,
    /// The failure of the last attempt.
    pub last: Option<Failure>,
    /// How long each attempt may take.
    pub timeout: Duration,
    /// Whether an attempt that takes too long ends the whole dial.
    pub abort_on_timeout: bool,
    /// The host.
    pub host: Seq<char>,
    /// The port on the host.
    pub port: u16,
}

/// The complaint about a host without addresses.
pub open spec fn no_addresses(host: Seq<char>, port: u16) -> Failure {
    Failure::Dns("no addresses resolved for "@ + host + ":"@ + decimal_of(port as nat))
}

/// The failure of a host without addresses.
pub fn no_addresses_error(host: &str, port: u16) -> (e: TransportError)
    ensures
        e@ == no_addresses(host@, port),
{
    let mut m: String = framed("no addresses resolved for ", host, ":");
    let p: String = decimal(port as u128);
    m.append(p.as_str());
    TransportError::Dns(m)
}

impl View for Dial {
    type V = DialState;

    closed spec fn view(&self) -> DialState {
        DialState {
            addrs: self.addrs@,
            tried: self.tried as nat,
            last: match self.last {
                Some(e) => Some(e@),
                None => None,
            },
            timeout: self.timeout,
            abort_on_timeout: self.abort_on_timeout,
            host: self.host@,
            port: self.port,
        }
    }
}

impl DialState {
    /// The failure that ends a dial whose last attempt failed as given.
    pub open spec fn verdict(self) -> Failure {
        match self.last {
            Some(f) => f,
            None => no_addresses(self.host, self.port),
        }
    }

    /// Whether going on from `self` leads to `next` by `step`: the next address is
    /// tried, or the dial fails as its last attempt did.
    pub open spec fn goes_on(self, step: DialStep, next: DialState) -> bool {
        if self.tried < self.addrs.len() {
            step == DialStep::Try(self.addrs[self.tried as int]) && next == (DialState {
                tried: self.tried + 1,
                ..self
            })
        } else {
            step matches DialStep::Fail(e) && e@ == self.verdict() && next == (DialState {
                last: None,
                ..self
            })
        }
    }
}

impl Dial {
    #[verifier::type_invariant]
    spec fn well_formed(self) -> bool {
        self.tried <= self.addrs@.len()
    }

    /// A dial of which no address was tried.
    pub fn new(
        addrs: Vec<SocketAddress>,
        timeout: Duration,
        abort_on_timeout: bool,
        host: &str,
        port: u16,
    ) -> (d: Dial)
        ensures
            d@ == (DialState {
                addrs: addrs@,
                tried: 0,
                last: None,
                timeout,
                abort_on_timeout,
                host: host@,
                port,
            }),
    {
        Dial {
            addrs,
            tried: 0,
            last: None,
            timeout,
            abort_on_timeout,
            host: String::from_str(host),
            port,
        }
    }

    /// The first step, and the step after a failure that does not end the dial.
    pub fn advance(&mut self) -> (s: DialStep)
        ensures
            old(self)@.goes_on(s, final(self)@),
    {
        proof {
            use_type_invariant(&*self);
        }
        if self.tried < self.addrs.len() {
            let a: SocketAddress = self.addrs[self.tried];
            self.tried = self.tried + 1;
            return DialStep::Try(a);
        }
        let mut last: Option<TransportError> = None;
        std::mem::swap(&mut last, &mut self.last);
        match last {
            Some(e) => DialStep::Fail(e),
            None => DialStep::Fail(no_addresses_error(self.host.as_str(), self.port)),
        }
    }

    /// The step after an attempt on the address that was last to be tried.
    pub fn step(&mut self, event: DialEvent) -> (s: DialStep)
        requires
            0 < old(self)@.tried,
        ensures
            match event {
                DialEvent::Connected => final(self)@ == old(self)@ && s == DialStep::Use(
                    old(self)@.addrs[old(self)@.tried - 1],
                ),
                DialEvent::Failed(e) => (DialState { last: Some(e@), ..old(self)@ }).goes_on(
                    s,
                    final(self)@,
                ),
                DialEvent::TimedOut => if old(self)@.abort_on_timeout {
                    s matches DialStep::Fail(e) && e@ == Failure::ConnectTimeout(
                        old(self)@.timeout,
                    ) && final(self)@ == old(self)@
                } else {
                    (DialState {
                        last: Some(Failure::ConnectTimeout(old(self)@.timeout)),
                        ..old(self)@
                    }).goes_on(s, final(self)@)
                },
            },
    {
        proof {
            use_type_invariant(&*self);
        }
        match event {
            DialEvent::Connected => DialStep::Use(self.addrs[self.tried - 1]),
            DialEvent::Failed(e) => {
                self.last = Some(e);
                self.advance()
            },
            DialEvent::TimedOut => {
                let e: TransportError = connect_timeout(self.timeout);
                if self.abort_on_timeout {
                    return DialStep::Fail(e);
                }
                self.last = Some(e);
                self.advance()
            },
        }
    }
}

/// A dial tries its addresses in order, none twice: what is tried next is never
/// among what was tried before.
pub proof fn addresses_are_tried_in_order(s: DialState, step: DialStep, next: DialState)
    requires
        s.tried <= s.addrs.len(),
        s.goes_on(step, next),
        step is Try,
    ensures
        next.addrs == s.addrs,
        step->Try_0 == s.addrs[s.tried as int],
        next.tried == s.tried + 1,
        next.tried <= next.addrs.len(),
{
}

/// A dial that fails without a timeout has tried every address, and fails as the
/// last of them did; without addresses it says so.
pub proof fn failure_means_all_were_tried(s: DialState, step: DialStep, next: DialState)
    requires
        s.tried <= s.addrs.len(),
        s.goes_on(step, next),
        step is Fail,
    ensures
        s.tried == s.addrs.len(),
        s.last matches Some(f) ==> (step->Fail_0)@ == f,
        s.last is None ==> (step->Fail_0)@ == no_addresses(s.host, s.port),
{
}

/// A dial goes through its addresses in order: the first step tries the first, and a host
/// without addresses fails at once.
pub proof fn a_dial_starts_with_the_first_address(
    addrs: Vec<SocketAddress>,
    timeout: Duration,
    abort: bool,
    host: &str,
    port: u16,
    d: Dial,
    e: &mut Dial,
    s: DialStep,
)
    requires
        call_ensures(Dial::new, (addrs, timeout, abort, host, port), d),
        *old(e) == d,
        call_ensures(Dial::advance, (e,), s),
    ensures
        addrs@.len() > 0 ==> s == DialStep::Try(addrs@[0]),
        addrs@.len() == 0 ==> s is Fail && s->Fail_0 is Dns,
        addrs@.len() > 0 ==> final(e)@.tried == 1,
        final(e)@.addrs == addrs@ && final(e)@.timeout == timeout && final(e)@.abort_on_timeout
            == abort,
{
}

/// What follows an attempt: a connection is used, with the address that was tried; after a
/// failure the next address is tried, or the dial fails as the attempt did when there is
/// none; a timeout ends the dial where it is to, and else is a failure like any other.
pub proof fn what_follows_an_attempt(d: &mut Dial, event: DialEvent, s: DialStep)
    requires
        0 < old(d)@.tried <= old(d)@.addrs.len(),
        call_ensures(Dial::step, (d, event), s),
    ensures
        ({
            let a = old(d)@;
            let more = a.tried < a.addrs.len();
            let over = event is TimedOut && a.abort_on_timeout;
            &&& event is Connected ==> s == DialStep::Use(a.addrs[a.tried - 1])
            &&& over ==> s == DialStep::Fail(TransportError::ConnectTimeout(a.timeout))
            &&& event !is Connected && !over && more ==> s == DialStep::Try(
                a.addrs[a.tried as int],
            ) && final(d)@.tried == a.tried + 1
            &&& event is Failed && !more ==> s is Fail && s->Fail_0@ == event->Failed_0@
            &&& event is TimedOut && !over && !more ==> s == DialStep::Fail(
                TransportError::ConnectTimeout(a.timeout),
            )
            &&& final(d)@.addrs == a.addrs && final(d)@.timeout == a.timeout
                && final(d)@.abort_on_timeout == a.abort_on_timeout
        }),
{
}

} // verus!
