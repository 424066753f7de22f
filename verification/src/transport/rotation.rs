//! Moving a listener to a new port from time to time.

use crate::text::{
    chars_of, decimal, decimal_of, end_trimmed, find_char, first_of, is_white,
    lemma_decimal_is_read, number_in, parse_number, part_of, text_of, trim, trim_end, trimmed,
};
use crate::time::{Duration, MAX_SPAN_NANOS, NANOS_PER_SEC};
use crate::transport::ephemeral::PortRange;
use crate::transport::error::{framed, joined, unsupported, Failure, TransportError};
use vstd::prelude::*;
use vstd::string::*;

verus! {

/// The seconds that a unit of time stands for.
pub open spec fn unit_secs(c: char) -> Option<u64> {
    if c == 's' {
        Some(1)
    } else if c == 'm' {
        Some(60)
    } else if c == 'h' {
        Some(3600)
    } else if c == 'd' {
        Some(86_400)
    } else {
        None
    }
}

/// The nanoseconds in a number of units of time, or in the longest span where the
/// seconds cannot be counted.
pub open spec fn saturated_span(n: nat, unit: nat) -> nat {
    if n * unit > u64::MAX {
        MAX_SPAN_NANOS as nat
    } else {
        n * unit * (NANOS_PER_SEC as nat)
    }
}

/// The nanoseconds that a text such as `5m` stands for, or the complaint about it.
pub open spec fn span_in(s: Seq<char>) -> Result<nat, Seq<char>> {
    let t = end_trimmed(s);
    let subject = "duration spec `"@ + s;
    if t.len() == 0 {
        Err("duration spec is empty"@)
    } else {
        match unit_secs(t.last()) {
            None => Err(subject + "`: missing unit suffix (expected s/m/h/d)"@),
            Some(unit) => match number_in(t.drop_last(), u64::MAX as nat) {
                Err(_) => Err(
                    subject + "`: numeric part `"@ + t.drop_last() + "` not parses as u64"@,
                ),
                Ok(n) => Ok(saturated_span(n, unit as nat)),
            },
        }
    }
}

/// A period with the number 1 put before a unit that stands alone.
pub open spec fn full_period(p: Seq<char>) -> Seq<char> {
    if p.len() == 1 && (p[0] as u32) < 128 {
        "1"@ + p
    } else {
        p
    }
}

/// The number and the nanoseconds that a text such as `3/h` stands for, or the complaint
/// about it.
pub open spec fn rate_in(s: Seq<char>) -> Result<(u32, nat), Seq<char>> {
    let t = trimmed(s);
    let subject = "rate spec `"@ + s;
    match first_of(t, '/') {
        None => Err(subject + "`: missing `/` separator (expected `N/period`)"@),
        Some(i) => {
            let burst = t.take(i);
            let period = t.skip(i + 1);
            if burst.len() == 0 || period.len() == 0 {
                Err(subject + "`: both sides of `/` must be non-empty"@)
            } else {
                match number_in(burst, u32::MAX as nat) {
                    Err(_) => Err(subject + "`: burst part `"@ + burst + "` not parses as u32"@),
                    Ok(n) => match span_in(full_period(period)) {
                        Err(m) => Err(m),
                        Ok(nanos) => Ok((n as u32, nanos)),
                    },
                }
            }
        },
    }
}

fn unit_of(c: char) -> (u: Option<u64>)
    ensures
        u == unit_secs(c),
{
    if c == 's' {
        Some(1)
    } else if c == 'm' {
        Some(60)
    } else if c == 'h' {
        Some(3600)
    } else if c == 'd' {
        Some(86_400)
    } else {
        None
    }
}

/// The span that a text such as `30s`, `5m`, `3h` or `7d` stands for. White space
/// behind it does not count. Where the seconds cannot be counted it is the longest span.
pub fn parse_duration_spec(s: &str) -> (r: Result<Duration, TransportError>)
    ensures
        match span_in(s@) {
            Ok(nanos) => r matches Ok(d) && d@ == nanos,
            Err(m) => r matches Err(e) && e@ == Failure::Unsupported(m),
        },
{
    let chars: Vec<char> = chars_of(s);
    let t: Vec<char> = trim_end(chars.as_slice());
    let n: usize = t.len();
    if n == 0 {
        return Err(unsupported("duration spec is empty"));
    }
    let unit: u64 = match unit_of(t[n - 1]) {
        Some(u) => u,
        None => {
            return Err(
                TransportError::Unsupported(
                    framed("duration spec `", s, "`: missing unit suffix (expected s/m/h/d)"),
                ),
            );
        },
    };
    let number: Vec<char> = part_of(t.as_slice(), 0, n - 1);
    assert(number@ =~= t@.drop_last());
    match parse_number(number.as_slice(), u64::MAX) {
        Err(_) => {
            let mut m: String = framed("duration spec `", s, "`: numeric part `");
            let part: String = text_of(number.as_slice());
            m.append(part.as_str());
            m.append("` not parses as u64");
            Err(TransportError::Unsupported(m))
        },
        Ok(v) => match v.checked_mul(unit) {
            Some(secs) => Ok(Duration::from_secs(secs)),
            None => Ok(Duration::longest()),
        },
    }
}

/// The number and the span that a text such as `3/h` or `10/30s` stands for.
pub fn parse_rate_spec(s: &str) -> (r: Result<(u32, Duration), TransportError>)
    ensures
        match rate_in(s@) {
            Ok((burst, nanos)) => r matches Ok((n, d)) && n == burst && d@ == nanos,
            Err(m) => r matches Err(e) && e@ == Failure::Unsupported(m),
        },
{
    let chars: Vec<char> = chars_of(s);
    let t: Vec<char> = trim(chars.as_slice());
    let at: usize = match find_char(t.as_slice(), '/') {
        Some(i) => i,
        None => {
            return Err(
                TransportError::Unsupported(
                    framed("rate spec `", s, "`: missing `/` separator (expected `N/period`)"),
                ),
            );
        },
    };
    let burst: Vec<char> = part_of(t.as_slice(), 0, at);
    let period: Vec<char> = part_of(t.as_slice(), at + 1, t.len());
    assert(burst@ =~= t@.take(at as int));
    assert(period@ =~= t@.skip(at + 1));
    if burst.len() == 0 || period.len() == 0 {
        return Err(
            TransportError::Unsupported(
                framed("rate spec `", s, "`: both sides of `/` must be non-empty"),
            ),
        );
    }
    let n: u64 = match parse_number(burst.as_slice(), u32::MAX as u64) {
        Ok(n) => n,
        Err(_) => {
            let mut m: String = framed("rate spec `", s, "`: burst part `");
            let part: String = text_of(burst.as_slice());
            m.append(part.as_str());
            m.append("` not parses as u32");
            return Err(TransportError::Unsupported(m));
        },
    };
    let bare: String = text_of(period.as_slice());
    let full: String = if period.len() == 1 && (period[0] as u32) < 128 {
        joined("1", bare.as_str())
    } else {
        bare
    };
    match parse_duration_spec(full.as_str()) {
        Ok(d) => Ok((n as u32, d)),
        Err(e) => Err(e),
    }
}

/// When and where a listener moves.
#[derive(Clone, Debug, PartialEq, Eq)]
pub struct RotationSpec {
    /// The host to listen on.
    pub host: String,
    /// The ports to draw from.
    pub port_range: PortRange,
    /// Further attempts when a drawn port is taken.
    pub bind_retries: u32,
    /// The time between two moves.
    pub rotation_interval: Duration,
    /// How long the old port still answers after a move.
    pub grace_period: Duration,
}

impl RotationSpec {
    /// Why a listener cannot move so; nothing when it can.
    pub open spec fn fault(port_range: PortRange, rotation_interval: Duration) -> Option<Failure> {
        if port_range.low > port_range.high {
            Some(Failure::Unsupported("port range invalid: "@ + port_range.words()))
        } else if rotation_interval@ == 0 {
            Some(Failure::Unsupported("rotation_interval must be > 0 (would spin tight)"@))
        } else {
            None
        }
    }

    /// Refuses a range without ports and an interval of no length.
    pub fn new(
        host: &str,
        port_range: PortRange,
        bind_retries: u32,
        rotation_interval: Duration,
        grace_period: Duration,
    ) -> (r: Result<RotationSpec, TransportError>)
        ensures
            match Self::fault(port_range, rotation_interval) {
                None => r matches Ok(s) && s.host@ == host@ && s.port_range == port_range
                    && s.bind_retries == bind_retries && s.rotation_interval == rotation_interval
                    && s.grace_period == grace_period,
                Some(f) => r matches Err(e) && e@ == f,
            },
    {
        if port_range.low > port_range.high {
            let t: String = port_range.text();
            return Err(TransportError::Unsupported(joined("port range invalid: ", t.as_str())));
        }
        if rotation_interval.is_zero() {
            return Err(unsupported("rotation_interval must be > 0 (would spin tight)"));
        }
        Ok(
            RotationSpec {
                host: String::from_str(host),
                port_range,
                bind_retries,
                rotation_interval,
                grace_period,
            },
        )
    }
}

/// What a move reports.
#[derive(Clone, Debug, PartialEq, Eq)]
pub enum RotationEvent {
    /// The new port answers, and peers were told.
    Rotated { new_port: u16 },
    /// The new port did not come to answer, and nobody was told of it.
    AdoptFailed { reason: String },
    /// The old port need not answer any longer.
    RetireOld,
    /// No free port was found; the old one stays.
    BindFailed { reason: String },
    /// There are no further moves.
    Shutdown,
}

/// The content of a [`RotationEvent`].
#[verifier::ext_equal]
pub ghost enum News {
    Rotated(u16),
    AdoptFailed(Seq<char>),
    RetireOld,
    BindFailed(Seq<char>),
    Shutdown,
}

impl View for RotationEvent {
    type V = News;

    open spec fn view(&self) -> News {
        match self {
            RotationEvent::Rotated { new_port } => News::Rotated(*new_port),
            RotationEvent::AdoptFailed { reason } => News::AdoptFailed(reason@),
            RotationEvent::RetireOld => News::RetireOld,
            RotationEvent::BindFailed { reason } => News::BindFailed(reason@),
            RotationEvent::Shutdown => News::Shutdown,
        }
    }
}

/// What events report.
pub open spec fn news_of(v: Seq<RotationEvent>) -> Seq<News> {
    v.map_values(|e: RotationEvent| e@)
}

/// Where the moves of a listener stand.
#[derive(Clone, Copy, Debug, PartialEq, Eq, Structural)]
pub enum RotationPhase {
    /// The next move is waited for.
    Waiting,
    /// A free port is looked for.
    Binding,
    /// The port is being brought to answer.
    Adopting(u16),
    /// Peers are being told of the port.
    Broadcasting(u16),
    /// The old port still answers.
    Grace,
    /// There are no further moves.
    Stopped,
}

/// What happened since the last step.
pub enum RotationInput {
    /// The signal to stop came, or its sender is gone.
    Stop,
    /// The time is up, or the signal came without asking to stop.
    Wake,
    /// A free port was found.
    Bound(u16),
    /// No free port was found.
    BindError(TransportError),
    /// Whether the port came to answer.
    Adopted(bool),
    /// Peers were told.
    Told,
}

/// What to do next.
#[derive(Clone, Copy, Debug, PartialEq, Eq, Structural)]
pub enum RotationAction {
    /// Wait for this span, or for the signal to stop.
    Wait(Duration),
    /// Look for a free port.
    Bind,
    /// Bring the port to answer, beside the old one.
    Adopt(u16),
    /// Tell peers of the port.
    Broadcast(u16),
    /// Make no further moves.
    Stop,
}

/// The moves of one listener.
pub struct RotationLoop {
    pub phase: RotationPhase,
    pub interval: Duration,
    pub grace: Duration,
}

/// The complaint about a port that did not come to answer.
pub open spec fn not_adopted(port: u16) -> Seq<char> {
    "caller did not come up on port "@ + decimal_of(port as nat)
}

impl RotationLoop {
    /// What the phase asks for.
    pub open spec fn asks(self) -> RotationAction {
        match self.phase {
            RotationPhase::Waiting => RotationAction::Wait(self.interval),
            RotationPhase::Binding => RotationAction::Bind,
            RotationPhase::Adopting(port) => RotationAction::Adopt(port),
            RotationPhase::Broadcasting(port) => RotationAction::Broadcast(port),
            RotationPhase::Grace => RotationAction::Wait(self.grace),
            RotationPhase::Stopped => RotationAction::Stop,
        }
    }

    /// The phase that an input leads to, and what is reported on the way. An input
    /// that does not belong to the phase changes nothing.
    pub open spec fn after(self, input: RotationInput) -> (RotationPhase, Seq<News>) {
        match (self.phase, input) {
            (RotationPhase::Waiting, RotationInput::Stop) => (
                RotationPhase::Stopped,
                seq![News::Shutdown],
            ),
            (RotationPhase::Waiting, RotationInput::Wake) => (RotationPhase::Binding, seq![]),
            (RotationPhase::Binding, RotationInput::Bound(port)) => (
                RotationPhase::Adopting(port),
                seq![],
            ),
            (RotationPhase::Binding, RotationInput::BindError(e)) => (
                RotationPhase::Waiting,
                seq![News::BindFailed(e@.words())],
            ),
            (RotationPhase::Adopting(port), RotationInput::Adopted(ok)) => if ok {
                (RotationPhase::Broadcasting(port), seq![])
            } else {
                (RotationPhase::Waiting, seq![News::AdoptFailed(not_adopted(port))])
            },
            (RotationPhase::Broadcasting(port), RotationInput::Told) => if self.grace@ == 0 {
                (RotationPhase::Waiting, seq![News::Rotated(port), News::RetireOld])
            } else {
                (RotationPhase::Grace, seq![News::Rotated(port)])
            },
            (RotationPhase::Grace, RotationInput::Stop) => (
                RotationPhase::Stopped,
                seq![News::Shutdown],
            ),
            (RotationPhase::Grace, RotationInput::Wake) => (
                RotationPhase::Waiting,
                seq![News::RetireOld],
            ),
            _ => (self.phase, seq![]),
        }
    }

    /// The moves before the first one.
    pub fn new(spec: &RotationSpec) -> (l: RotationLoop)
        ensures
            l == (RotationLoop {
                phase: RotationPhase::Waiting,
                interval: spec.rotation_interval,
                grace: spec.grace_period,
            }),
    {
        RotationLoop {
            phase: RotationPhase::Waiting,
            interval: spec.rotation_interval,
            grace: spec.grace_period,
        }
    }

    /// What the phase asks for.
    pub fn pending(&self) -> (a: RotationAction)
        ensures
            a == self.asks(),
    {
        match self.phase {
            RotationPhase::Waiting => RotationAction::Wait(self.interval),
            RotationPhase::Binding => RotationAction::Bind,
            RotationPhase::Adopting(port) => RotationAction::Adopt(port),
            RotationPhase::Broadcasting(port) => RotationAction::Broadcast(port),
            RotationPhase::Grace => RotationAction::Wait(self.grace),
            RotationPhase::Stopped => RotationAction::Stop,
        }
    }

    /// The next step, with what is to be reported.
    pub fn step(&mut self, input: RotationInput) -> (r: (Vec<RotationEvent>, RotationAction))
        ensures
            *final(self) == (RotationLoop { phase: old(self).after(input).0, ..*old(self) }),
            news_of(r.0@) == old(self).after(input).1,
            r.1 == final(self).asks(),
    {
        let mut events: Vec<RotationEvent> = Vec::new();
        match (self.phase, input) {
            (RotationPhase::Waiting, RotationInput::Stop) => {
                events.push(RotationEvent::Shutdown);
                self.phase = RotationPhase::Stopped;
            },
            (RotationPhase::Waiting, RotationInput::Wake) => {
                self.phase = RotationPhase::Binding;
            },
            (RotationPhase::Binding, RotationInput::Bound(port)) => {
                self.phase = RotationPhase::Adopting(port);
            },
            (RotationPhase::Binding, RotationInput::BindError(e)) => {
                events.push(RotationEvent::BindFailed { reason: e.message() });
                self.phase = RotationPhase::Waiting;
            },
            (RotationPhase::Adopting(port), RotationInput::Adopted(ok)) => {
                if ok {
                    self.phase = RotationPhase::Broadcasting(port);
                } else {
                    let p: String = decimal(port as u128);
                    let reason: String = joined("caller did not come up on port ", p.as_str());
                    events.push(RotationEvent::AdoptFailed { reason });
                    self.phase = RotationPhase::Waiting;
                }
            },
            (RotationPhase::Broadcasting(port), RotationInput::Told) => {
                events.push(RotationEvent::Rotated { new_port: port });
                if self.grace.is_zero() {
                    events.push(RotationEvent::RetireOld);
                    self.phase = RotationPhase::Waiting;
                } else {
                    self.phase = RotationPhase::Grace;
                }
            },
            (RotationPhase::Grace, RotationInput::Stop) => {
                events.push(RotationEvent::Shutdown);
                self.phase = RotationPhase::Stopped;
            },
            (RotationPhase::Grace, RotationInput::Wake) => {
                events.push(RotationEvent::RetireOld);
                self.phase = RotationPhase::Waiting;
            },
            _ => {},
        }
        assert(news_of(events@) =~= old(self).after(input).1);
        let action: RotationAction = self.pending();
        (events, action)
    }
}

/// Peers are told of a port only after it has come to answer, and only of that
/// port.
pub proof fn only_answering_ports_are_told(l: RotationLoop, input: RotationInput, port: u16)
    requires
        l.after(input).0 == RotationPhase::Broadcasting(port),
        l.phase != RotationPhase::Broadcasting(port),
    ensures
        l.phase == RotationPhase::Adopting(port),
        input == RotationInput::Adopted(true),
{
}

/// A move is reported only of a port that peers were told of.
pub proof fn only_told_ports_are_reported(l: RotationLoop, input: RotationInput, port: u16)
    requires
        l.after(input).1.contains(News::Rotated(port)),
    ensures
        l.phase == RotationPhase::Broadcasting(port),
        input == RotationInput::Told,
{
}

/// The old port is given up only after a move: together with its report where there
/// is no grace, else when the grace is over; never on the way to a stop, nor after a
/// failure.
pub proof fn old_port_outlives_the_grace(l: RotationLoop, input: RotationInput)
    requires
        l.after(input).1.contains(News::RetireOld),
    ensures
        (l.phase == RotationPhase::Grace && input == RotationInput::Wake) || (l.phase is Broadcasting
            && input == RotationInput::Told && l.grace@ == 0),
        l.after(input).0 == RotationPhase::Waiting,
        !l.after(input).1.contains(News::Shutdown),
{
}

/// A move that fails leaves nothing behind: the loop waits for the next one.
pub proof fn failed_moves_change_nothing(l: RotationLoop, input: RotationInput)
    requires
        l.after(input).1.len() == 1,
        l.after(input).1[0] is AdoptFailed || l.after(input).1[0] is BindFailed,
    ensures
        l.after(input).0 == RotationPhase::Waiting,
{
}

/// A stop is final.
pub proof fn stop_is_final(l: RotationLoop, input: RotationInput)
    requires
        l.phase == RotationPhase::Stopped,
    ensures
        l.after(input) == (RotationPhase::Stopped, Seq::<News>::empty()),
{
}

/// A number written in decimal before a unit is read as that many units, or as the
/// longest span.
pub proof fn written_spans_are_read(n: u64, unit: char)
    requires
        unit_secs(unit) is Some,
    ensures
        span_in(decimal_of(n as nat).push(unit)) == Ok::<nat, Seq<char>>(
            saturated_span(n as nat, unit_secs(unit)->0 as nat),
        ),
{
    let s = decimal_of(n as nat).push(unit);
    lemma_decimal_is_read(n as nat, u64::MAX as nat);
    assert(!is_white(unit));
    assert(end_trimmed(s) == s);
    assert(s.drop_last() =~= decimal_of(n as nat));
}

proof fn lemma_kept_end(s: Seq<char>)
    requires
        s.len() > 0,
        !is_white(s.last()),
    ensures
        end_trimmed(s) == s,
{
}

/// A number of seconds, minutes, hours or days is read as that long.
pub proof fn written_durations_are_read(
    n: u64,
    unit: char,
    s: &str,
    r: Result<Duration, TransportError>,
)
    requires
        unit == 's' || unit == 'm' || unit == 'h' || unit == 'd',
        s@ == decimal_of(n as nat).push(unit),
        call_ensures(parse_duration_spec, (s,), r),
    ensures
        r is Ok,
        unit == 's' ==> r->Ok_0@ == n * 1_000_000_000,
        unit == 'm' && n * 60 <= u64::MAX ==> r->Ok_0@ == n * 60 * 1_000_000_000,
        unit == 'h' && n * 3600 <= u64::MAX ==> r->Ok_0@ == n * 3600 * 1_000_000_000,
        unit == 'd' && n * 86400 <= u64::MAX ==> r->Ok_0@ == n * 86400 * 1_000_000_000,
{
    written_spans_are_read(n, unit);
}

/// Nothing but a number and one of the four units is a duration.
pub proof fn only_numbers_with_units_are_durations(
    s: &str,
    r: Result<Duration, TransportError>,
)
    requires
        s@.len() > 0,
        !is_white(s@.last()),
        call_ensures(parse_duration_spec, (s,), r),
    ensures
        r is Ok ==> s@.last() == 's' || s@.last() == 'm' || s@.last() == 'h' || s@.last() == 'd',
        r is Ok <==> (s@.last() == 's' || s@.last() == 'm' || s@.last() == 'h' || s@.last() == 'd')
            && number_in(s@.drop_last(), u64::MAX as nat) is Ok,
        r is Err ==> r->Err_0 is Unsupported,
{
    lemma_kept_end(s@);
}

/// White space behind a duration does not count, and an empty text is none.
pub proof fn durations_may_be_followed_by_blanks(
    s: &str,
    t: &str,
    r: Result<Duration, TransportError>,
    q: Result<Duration, TransportError>,
)
    requires
        t@ == s@.push(' '),
        call_ensures(parse_duration_spec, (s,), r),
        call_ensures(parse_duration_spec, (t,), q),
    ensures
        r is Ok <==> q is Ok,
        r is Ok ==> q->Ok_0@ == r->Ok_0@,
        s@.len() == 0 ==> r is Err,
{
    assert(t@.last() == ' ');
    assert(t@.drop_last() =~= s@);
    assert(end_trimmed(t@) == end_trimmed(s@));
}

/// A number of times per duration is read as that, and per unit as per one of it.
pub proof fn written_rates_are_read(
    n: u32,
    k: u64,
    unit: char,
    s: &str,
    r: Result<(u32, Duration), TransportError>,
    t: &str,
    q: Result<(u32, Duration), TransportError>,
)
    requires
        unit == 's' || unit == 'm' || unit == 'h' || unit == 'd',
        s@ == decimal_of(n as nat) + seq!['/'] + decimal_of(k as nat).push(unit),
        t@ == decimal_of(n as nat) + seq!['/', unit],
        call_ensures(parse_rate_spec, (s,), r),
        call_ensures(parse_rate_spec, (t,), q),
    ensures
        r is Ok && q is Ok,
        (r->Ok_0).0 == n && (q->Ok_0).0 == n,
        unit == 's' ==> (r->Ok_0).1@ == k * 1_000_000_000 && (q->Ok_0).1@ == 1_000_000_000,
        unit == 'm' ==> (q->Ok_0).1@ == 60 * 1_000_000_000,
        unit == 'h' ==> (q->Ok_0).1@ == 3600 * 1_000_000_000,
        unit == 'd' ==> (q->Ok_0).1@ == 86400 * 1_000_000_000,
        unit == 'h' && k * 3600 <= u64::MAX ==> (r->Ok_0).1@ == k * 3600 * 1_000_000_000,
{
    let a = decimal_of(n as nat);
    let p = decimal_of(k as nat).push(unit);
    lemma_decimal_is_read(n as nat, u32::MAX as nat);
    lemma_decimal_is_read(k as nat, u64::MAX as nat);
    written_spans_are_read(k, unit);
    written_spans_are_read(1, unit);
    lemma_rate_text(a, p, s@);
    assert(t@ =~= a + seq!['/'] + seq![unit]);
    lemma_rate_text(a, seq![unit], t@);
    assert(p.len() >= 2);
    reveal_strlit("1");
    assert(decimal_of(1) =~= "1"@);
    assert("1"@ + seq![unit] =~= decimal_of(1).push(unit));
}

proof fn lemma_rate_text(a: Seq<char>, p: Seq<char>, s: Seq<char>)
    requires
        a.len() > 0,
        p.len() > 0,
        !is_white(p.last()),
        forall|i: int| 0 <= i < a.len() ==> crate::text::is_digit(#[trigger] a[i]),
        s == a + seq!['/'] + p,
    ensures
        trimmed(s) == s,
        first_of(s, '/') == Some(a.len() as int),
        s.take(a.len() as int) == a,
        s.skip(a.len() as int + 1) == p,
{
    assert(s.last() == p.last());
    assert(crate::text::is_digit(a[0]));
    assert(s[0] == a[0]);
    assert(end_trimmed(s) == s);
    crate::text::lemma_first_of(s, '/');
    assert(s[a.len() as int] == '/');
    if first_of(s, '/') is None {
        assert(s.contains(s[a.len() as int]));
    } else {
        let i = first_of(s, '/')->0;
        if i < a.len() {
            assert(crate::text::is_digit(a[i]));
            assert(s[i] == a[i]);
        }
    }
    assert(s.take(a.len() as int) =~= a);
    assert(s.skip(a.len() as int + 1) =~= p);
}

/// A listener can move in any range with a port and at any interval but none, and then
/// moves as it was told.
pub proof fn a_listener_moves_as_told(
    host: &str,
    range: PortRange,
    retries: u32,
    interval: Duration,
    grace: Duration,
    r: Result<RotationSpec, TransportError>,
)
    requires
        call_ensures(RotationSpec::new, (host, range, retries, interval, grace), r),
    ensures
        r is Ok <==> range.low <= range.high && interval@ > 0,
        r is Ok ==> r->Ok_0.host@ == host@ && r->Ok_0.port_range == range && r->Ok_0.bind_retries
            == retries && r->Ok_0.rotation_interval == interval && r->Ok_0.grace_period == grace,
        r is Err ==> r->Err_0 is Unsupported,
{
}

/// The course of a move: when the time is up a port is looked for, a found port is brought
/// to answer, peers are told of it, the old port answers for the grace, and then the next
/// move is waited for. A failure on the way leads back to waiting, and a stop ends it.
pub proof fn how_a_listener_moves(
    l: &mut RotationLoop,
    input: RotationInput,
    r: (Vec<RotationEvent>, RotationAction),
    port: u16,
)
    requires
        call_ensures(RotationLoop::step, (l, input), r),
    ensures
        old(l).phase is Waiting && input is Wake ==> r.1 == RotationAction::Bind,
        old(l).phase is Binding && input == RotationInput::Bound(port) ==> r.1
            == RotationAction::Adopt(port) && final(l).phase == RotationPhase::Adopting(port),
        old(l).phase == RotationPhase::Adopting(port) && input == RotationInput::Adopted(true)
            ==> r.1 == RotationAction::Broadcast(port),
        old(l).phase == RotationPhase::Broadcasting(port) && input is Told && old(l).grace@ > 0
            ==> r.1 == RotationAction::Wait(old(l).grace) && final(l).phase is Grace,
        old(l).phase == RotationPhase::Broadcasting(port) && input is Told && old(l).grace@ == 0
            ==> r.1 == RotationAction::Wait(old(l).interval) && final(l).phase is Waiting,
        old(l).phase is Grace && input is Wake ==> r.1 == RotationAction::Wait(old(l).interval)
            && final(l).phase is Waiting,
        old(l).phase is Binding && input is BindError ==> r.1 == RotationAction::Wait(
            old(l).interval,
        ) && final(l).phase is Waiting,
        old(l).phase is Adopting && input == RotationInput::Adopted(false) ==> r.1
            == RotationAction::Wait(old(l).interval) && final(l).phase is Waiting,
        (old(l).phase is Waiting || old(l).phase is Grace) && input is Stop ==> r.1
            == RotationAction::Stop,
        old(l).phase is Stopped ==> r.1 == RotationAction::Stop && r.0@.len() == 0,
        final(l).interval == old(l).interval && final(l).grace == old(l).grace,
{
    assert(news_of(r.0@).len() == r.0@.len());
}

/// What a move reports: the port once peers were told of it, that the old one is given up
/// when the grace is over, each failure, and the stop; nothing else.
pub proof fn what_a_move_reports(
    l: &mut RotationLoop,
    input: RotationInput,
    r: (Vec<RotationEvent>, RotationAction),
    port: u16,
)
    requires
        call_ensures(RotationLoop::step, (l, input), r),
    ensures
        old(l).phase == RotationPhase::Broadcasting(port) && input is Told && old(l).grace@ > 0
            ==> r.0@.len() == 1 && r.0@[0]@ == News::Rotated(port),
        old(l).phase == RotationPhase::Broadcasting(port) && input is Told && old(l).grace@ == 0
            ==> r.0@.len() == 2 && r.0@[0]@ == News::Rotated(port) && r.0@[1]@ == News::RetireOld,
        old(l).phase is Grace && input is Wake ==> r.0@.len() == 1 && r.0@[0]@ == News::RetireOld,
        (old(l).phase is Waiting || old(l).phase is Grace) && input is Stop ==> r.0@.len() == 1
            && r.0@[0]@ == News::Shutdown,
        old(l).phase is Binding && input is BindError ==> r.0@.len() == 1 && r.0@[0]@
            is BindFailed,
        old(l).phase is Adopting && input == RotationInput::Adopted(false) ==> r.0@.len() == 1
            && r.0@[0]@ is AdoptFailed,
        old(l).phase is Waiting && input is Wake ==> r.0@.len() == 0,
        old(l).phase is Binding && input is Bound ==> r.0@.len() == 0,
        old(l).phase is Adopting && input == RotationInput::Adopted(true) ==> r.0@.len() == 0,
{
    let news = news_of(r.0@);
    assert(news.len() == r.0@.len());
    if r.0@.len() > 0 {
        assert(news[0] == r.0@[0]@);
    }
    if r.0@.len() > 1 {
        assert(news[1] == r.0@[1]@);
    }
}

/// A listener starts by waiting for its first move, for one interval.
pub proof fn the_first_move_is_waited_for(
    spec_of: &RotationSpec,
    l: RotationLoop,
    a: RotationAction,
)
    requires
        call_ensures(RotationLoop::new, (spec_of,), l),
        call_ensures(RotationLoop::pending, (&l,), a),
    ensures
        a == RotationAction::Wait(spec_of.rotation_interval),
        l.grace == spec_of.grace_period,
{
}

} // verus!
