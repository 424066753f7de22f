//! Spans of time and points in time, counted in whole nanoseconds.

use vstd::prelude::*;

verus! {

/// Nanoseconds in one second.
pub const NANOS_PER_SEC: u128 = 1_000_000_000;

/// Nanoseconds in one millisecond.
pub const NANOS_PER_MILLI: u128 = 1_000_000;

/// The longest span: `u64::MAX` seconds and 999 999 999 nanoseconds.
pub const MAX_SPAN_NANOS: u128 = 18_446_744_073_709_551_615_999_999_999;

/// The latest point in time that a span may still be added to. It leaves room
/// for two spans above it.
pub const LATEST_NANOS: u128 = 36_893_488_147_419_103_231_999_999_999;

/// The latest point in time that can be held.
pub const MAX_POINT_NANOS: u128 = 110_680_464_442_257_309_695_999_999_999;

/// How a span of whole seconds and further nanoseconds is written for people, such
/// as `1.5s`.
pub uninterp spec fn span_text(secs: u64, nanos: u32) -> Seq<char>;

/// Formats a `std::time::Duration`, made by `Duration::new`, with its `Debug`
/// implementation. The text is named, not described.
#[verifier::external_body]
fn write_span(secs: u64, nanos: u32) -> (s: String)
    requires
        nanos < NANOS_PER_SEC,
    ensures
        s@ == span_text(secs, nanos),
{
    format!("{:?}", std::time::Duration::new(secs, nanos))
}

/// A span of time. Its view is the number of nanoseconds in it.
#[derive(Clone, Copy, Debug, PartialEq, Eq, PartialOrd, Ord, Structural)]
pub struct Duration {
    nanos: u128,
}

impl View for Duration {
    type V = nat;

    closed spec fn view(&self) -> nat {
        self.nanos as nat
    }
}

impl Duration {
    /// No span is longer than 64 bits of seconds and a fraction of one.
    #[verifier::type_invariant]
    pub open spec fn within_bounds(self) -> bool {
        self@ <= MAX_SPAN_NANOS
    }

    /// A span of `secs` whole seconds.
    pub fn from_secs(secs: u64) -> (d: Duration)
        ensures
            d@ == secs * NANOS_PER_SEC,
    {
        Duration { nanos: secs as u128 * NANOS_PER_SEC }
    }

    /// A span of `millis` whole milliseconds.
    pub fn from_millis(millis: u64) -> (d: Duration)
        ensures
            d@ == millis * NANOS_PER_MILLI,
    {
        Duration { nanos: millis as u128 * NANOS_PER_MILLI }
    }

    /// A span of `nanos` nanoseconds.
    pub fn from_nanos(nanos: u64) -> (d: Duration)
        ensures
            d@ == nanos,
    {
        Duration { nanos: nanos as u128 }
    }

    /// The longest span.
    pub fn longest() -> (d: Duration)
        ensures
            d@ == MAX_SPAN_NANOS,
    {
        Duration { nanos: MAX_SPAN_NANOS }
    }

    /// The number of nanoseconds in the span.
    pub fn as_nanos(&self) -> (n: u128)
        ensures
            n == self@,
            n <= MAX_SPAN_NANOS,
    {
        proof {
            use_type_invariant(self);
        }
        self.nanos
    }

    /// How the span is written for people.
    pub open spec fn words(self) -> Seq<char> {
        span_text(
            (self@ / NANOS_PER_SEC as nat) as u64,
            (self@ % NANOS_PER_SEC as nat) as u32,
        )
    }

    /// Writes the span for people.
    pub fn text(&self) -> (s: String)
        ensures
            s@ == self.words(),
    {
        proof {
            use_type_invariant(self);
        }
        let secs: u64 = (self.nanos / NANOS_PER_SEC) as u64;
        let nanos: u32 = (self.nanos % NANOS_PER_SEC) as u32;
        write_span(secs, nanos)
    }

    /// Whether the span is empty.
    pub fn is_zero(&self) -> (b: bool)
        ensures
            b == (self@ == 0),
    {
        self.nanos == 0
    }

    /// The shorter of two spans.
    pub fn shorter(self, other: Duration) -> (d: Duration)
        ensures
            d@ == if self@ <= other@ { self@ } else { other@ },
    {
        if self.nanos <= other.nanos { self } else { other }
    }

    /// `numerator / denominator` of the span, rounded down.
    pub fn fraction(self, numerator: u32, denominator: u32) -> (d: Duration)
        requires
            0 < numerator <= denominator,
        ensures
            d@ == (self@ * numerator) / (denominator as int),
    {
        proof {
            use_type_invariant(&self);
            assert(self.nanos * numerator <= self.nanos * denominator) by (nonlinear_arith)
                requires
                    numerator <= denominator,
            ;
            assert(self.nanos * denominator <= MAX_SPAN_NANOS * 0xffff_ffff) by (nonlinear_arith)
                requires
                    self.nanos <= MAX_SPAN_NANOS,
                    denominator <= 0xffff_ffff,
            ;
            assert((self.nanos * numerator) / (denominator as int) <= self.nanos) by (nonlinear_arith)
                requires
                    self.nanos * numerator <= self.nanos * denominator,
                    denominator > 0,
            ;
        }
        Duration { nanos: (self.nanos * numerator as u128) / (denominator as u128) }
    }
}

/// A point in time, counted from an arbitrary fixed origin. Its view is the
/// number of nanoseconds since that origin.
#[derive(Clone, Copy, Debug, PartialEq, Eq, PartialOrd, Ord, Structural)]
pub struct Instant {
    nanos: u128,
}

impl View for Instant {
    type V = nat;

    closed spec fn view(&self) -> nat {
        self.nanos as nat
    }
}

impl Instant {
    #[verifier::type_invariant]
    spec fn within_bounds(self) -> bool {
        self.nanos <= MAX_POINT_NANOS
    }

    /// The point that lies `offset` after the origin.
    pub fn at(offset: Duration) -> (t: Instant)
        ensures
            t@ == offset@,
            t.has_room(),
    {
        let n: u128 = offset.as_nanos();
        Instant { nanos: n }
    }

    /// Whether two spans can still be added to this point.
    pub open spec fn has_room(self) -> bool {
        self@ <= LATEST_NANOS
    }

    /// The point that lies `d` after this one.
    pub fn plus(self, d: Duration) -> (t: Instant)
        requires
            self@ + d@ <= MAX_POINT_NANOS,
        ensures
            t@ == self@ + d@,
    {
        let n: u128 = d.as_nanos();
        Instant { nanos: self.nanos + n }
    }

    /// The span from `earlier` to this point, empty when `earlier` is later.
    pub fn since(self, earlier: Instant) -> (d: Duration)
        requires
            self@ - earlier@ <= MAX_SPAN_NANOS,
        ensures
            d@ == if earlier@ <= self@ { (self@ - earlier@) as nat } else { 0 },
    {
        if earlier.nanos <= self.nanos {
            Duration { nanos: self.nanos - earlier.nanos }
        } else {
            Duration { nanos: 0 }
        }
    }

    /// Whether at least `d` lies between `earlier` and this point.
    pub fn reached(self, earlier: Instant, d: Duration) -> (b: bool)
        ensures
            b == (self@ >= earlier@ + d@),
    {
        proof {
            use_type_invariant(&self);
            use_type_invariant(&earlier);
        }
        let n: u128 = d.as_nanos();
        self.nanos >= earlier.nanos + n
    }

    /// The nanoseconds from `earlier` to this point, none when `earlier` is later.
    pub open spec fn elapsed(self, earlier: Instant) -> nat {
        if earlier@ <= self@ {
            (self@ - earlier@) as nat
        } else {
            0
        }
    }

    /// Whether the span from `earlier` to this point is at least `multiple`
    /// times `d`.
    pub fn elapsed_at_least(self, earlier: Instant, d: Duration, multiple: u32) -> (b: bool)
        ensures
            b == (self.elapsed(earlier) >= d@ * multiple),
    {
        let n: u128 = d.as_nanos();
        proof {
            assert(n * multiple <= MAX_SPAN_NANOS * 0xffff_ffff) by (nonlinear_arith)
                requires
                    n <= MAX_SPAN_NANOS,
                    multiple <= 0xffff_ffff,
            ;
        }
        let span: u128 = n * multiple as u128;
        let passed: u128 = if earlier.nanos <= self.nanos {
            self.nanos - earlier.nanos
        } else {
            0
        };
        passed >= span
    }

    /// Whether this point is at `other` or after it.
    pub fn not_before(self, other: Instant) -> (b: bool)
        ensures
            b == (self@ >= other@),
    {
        self.nanos >= other.nanos
    }

    /// The earlier of two points.
    pub fn earlier(self, other: Instant) -> (t: Instant)
        ensures
            t@ == if self@ <= other@ { self@ } else { other@ },
            t == self || t == other,
    {
        if self.nanos <= other.nanos { self } else { other }
    }
}

/// A second has a thousand milliseconds and a thousand million nanoseconds.
pub proof fn spans_are_counted_in_nanoseconds(
    n: u64,
    s: Duration,
    m: Duration,
    k: Duration,
    zero: bool,
)
    requires
        call_ensures(Duration::from_secs, (n,), s),
        call_ensures(Duration::from_millis, (n,), m),
        call_ensures(Duration::from_nanos, (n,), k),
        call_ensures(Duration::is_zero, (&s,), zero),
    ensures
        s@ == n * 1_000_000_000,
        m@ == n * 1_000_000,
        k@ == n,
        s@ == 1000 * m@,
        zero <==> n == 0,
{
}

/// The shorter of two spans is one of them and not longer than either; a part of a span is
/// not longer than the span.
pub proof fn shorter_spans_are_shorter(
    a: Duration,
    b: Duration,
    c: Duration,
    n: u32,
    d: u32,
    p: Duration,
)
    requires
        0 < n <= d,
        call_ensures(Duration::shorter, (a, b), c),
        call_ensures(Duration::fraction, (a, n, d), p),
    ensures
        c@ <= a@ && c@ <= b@,
        c@ == a@ || c@ == b@,
        p@ * d <= a@ * n < (p@ + 1) * d,
{
    let x = (a@ * n) as int;
    let m = d as int;
    assert(m * (x / m) <= x < m * (x / m) + m) by (nonlinear_arith)
        requires
            m > 0,
    ;
    let q = p@ as int;
    assert(q * m == m * q) by (nonlinear_arith);
    assert((q + 1) * m == m * q + m) by (nonlinear_arith);
}

/// What is added to a point is what has passed since it; before that it is not reached, and
/// from then on it is.
pub proof fn added_spans_pass(
    t: Instant,
    d: Duration,
    u: Instant,
    since: Duration,
    back: Duration,
    now: Instant,
    reached: bool,
    after: bool,
)
    requires
        call_ensures(Instant::plus, (t, d), u),
        call_ensures(Instant::since, (u, t), since),
        call_ensures(Instant::since, (t, u), back),
        call_ensures(Instant::reached, (now, t, d), reached),
        call_ensures(Instant::not_before, (now, u), after),
    ensures
        since@ == d@,
        back@ == 0,
        reached == after,
        reached <==> now@ >= u@,
{
}

/// A multiple of a span has passed when that many of it have.
pub proof fn multiples_of_spans_pass(
    now: Instant,
    t: Instant,
    d: Duration,
    n: u32,
    b: bool,
    first: Instant,
)
    requires
        t@ <= now@,
        call_ensures(Instant::elapsed_at_least, (now, t, d, n), b),
        call_ensures(Instant::earlier, (now, t), first),
    ensures
        b <==> now@ >= t@ + n * d@,
        first@ == t@,
{
    assert(n * d@ == d@ * n) by (nonlinear_arith);
}

} // verus!
