//! Which ways of reaching peers have worked from this node.

use crate::text::{comes_before, lemma_text_order, lemma_text_transitive, same_text, text_before};
use crate::transport::registry::TransportHintSink;
use vstd::prelude::*;
use vstd::string::*;

verus! {

/// Outcomes of the attempts to connect in one way.
#[derive(Clone, Copy, Debug, PartialEq, Eq, Structural)]
pub struct SchemeCounters {
    /// Attempts that succeeded.
    pub success: u32,
    /// Attempts that failed.
    pub failure: u32,
}

impl Default for SchemeCounters {
    fn default() -> (c: SchemeCounters)
        ensures
            c == (SchemeCounters { success: 0, failure: 0 }),
    {
        SchemeCounters { success: 0, failure: 0 }
    }
}

impl SchemeCounters {
    /// The number of attempts, as far as it can be counted.
    pub open spec fn attempts(self) -> nat {
        if self.success + self.failure > u32::MAX {
            u32::MAX as nat
        } else {
            (self.success + self.failure) as nat
        }
    }

    /// The share of attempts that succeeded, in whole percent; nothing without
    /// attempts.
    pub open spec fn percent(self) -> int {
        if self.attempts() == 0 {
            0
        } else {
            (self.success * 100) / (self.attempts() as int)
        }
    }

    /// The share of attempts that succeeded, in whole percent. It is 0 without
    /// attempts, which [`Self::total`] tells apart from 0 of some.
    pub fn success_pct(&self) -> (p: u8)
        ensures
            p == self.percent(),
            p <= 100,
    {
        let total: u32 = self.total();
        if total == 0 {
            return 0;
        }
        let share: u64 = (self.success as u64 * 100) / total as u64;
        assert(share <= 100) by (nonlinear_arith)
            requires
                total > 0,
                self.success <= total,
                share == (self.success as u64 * 100) / (total as int),
        ;
        share as u8
    }

    /// The number of attempts.
    pub fn total(&self) -> (n: u32)
        ensures
            n == self.attempts(),
    {
        self.success.saturating_add(self.failure)
    }

    /// The counters after one more attempt. Where `cap` attempts are counted
    /// already, both counters are halved first, so that what is recent weighs more.
    pub open spec fn after(self, cap: u32, success: bool) -> SchemeCounters {
        let kept = if self.attempts() >= cap {
            SchemeCounters { success: self.success / 2, failure: self.failure / 2 }
        } else {
            self
        };
        if success {
            SchemeCounters { success: (kept.success + 1) as u32, failure: kept.failure }
        } else {
            SchemeCounters { success: kept.success, failure: (kept.failure + 1) as u32 }
        }
    }
}

/// Whether one way ranks above another: by the share of successes, then by the
/// number of attempts, then by name.
pub open spec fn ranks_above(
    a: (Seq<char>, SchemeCounters),
    b: (Seq<char>, SchemeCounters),
) -> bool {
    if a.1.percent() != b.1.percent() {
        a.1.percent() > b.1.percent()
    } else if a.1.attempts() != b.1.attempts() {
        a.1.attempts() > b.1.attempts()
    } else {
        text_before(a.0, b.0)
    }
}

/// What a ranking holds, with the names as texts.
pub open spec fn entries_of(v: Seq<(String, SchemeCounters)>) -> Seq<(Seq<char>, SchemeCounters)> {
    v.map_values(|e: (String, SchemeCounters)| (e.0@, e.1))
}

/// Counters for each way of reaching peers. Its view is the map from names to
/// counters.
pub struct TransportHintRegistry {
    entries: Vec<(String, SchemeCounters)>,
    sample_cap: u32,
}

spec fn names_unique(v: Seq<(String, SchemeCounters)>) -> bool {
    forall|i: int, j: int|
        0 <= i < j < v.len() ==> #[trigger] v[i].0@ != #[trigger] v[j].0@
}

spec fn has_name(v: Seq<(String, SchemeCounters)>, name: Seq<char>) -> bool {
    exists|i: int| 0 <= i < v.len() && #[trigger] v[i].0@ == name
}

spec fn index_of(v: Seq<(String, SchemeCounters)>, name: Seq<char>) -> int {
    choose|i: int| 0 <= i < v.len() && #[trigger] v[i].0@ == name
}

spec fn counters_of(v: Seq<(String, SchemeCounters)>) -> Map<Seq<char>, SchemeCounters> {
    Map::new(|name: Seq<char>| has_name(v, name), |name: Seq<char>| v[index_of(v, name)].1)
}

proof fn lemma_entry(v: Seq<(String, SchemeCounters)>, i: int)
    requires
        names_unique(v),
        0 <= i < v.len(),
    ensures
        counters_of(v).contains_key(v[i].0@),
        counters_of(v)[v[i].0@] == v[i].1,
{
    assert(has_name(v, v[i].0@));
    let j = index_of(v, v[i].0@);
    assert(v[j].0@ == v[i].0@);
}

impl View for TransportHintRegistry {
    type V = Map<Seq<char>, SchemeCounters>;

    closed spec fn view(&self) -> Map<Seq<char>, SchemeCounters> {
        counters_of(self.entries@)
    }
}

/// Attempts per way that are counted in full.
pub const DEFAULT_SAMPLE_CAP: u32 = 1024;

impl Default for TransportHintRegistry {
    fn default() -> (r: TransportHintRegistry)
        ensures
            r@ == Map::<Seq<char>, SchemeCounters>::empty(),
            r.cap() == DEFAULT_SAMPLE_CAP,
    {
        TransportHintRegistry::new()
    }
}

impl TransportHintRegistry {
    #[verifier::type_invariant]
    spec fn well_formed(self) -> bool {
        names_unique(self.entries@)
    }

    /// The number of attempts at which the counters of one way are halved.
    pub closed spec fn cap(self) -> u32 {
        self.sample_cap
    }

    /// The counters of one way, which are empty before its first attempt.
    pub open spec fn counters(self, scheme: Seq<char>) -> SchemeCounters {
        if self@.contains_key(scheme) {
            self@[scheme]
        } else {
            SchemeCounters { success: 0, failure: 0 }
        }
    }

    /// A registry without attempts.
    pub fn new() -> (r: TransportHintRegistry)
        ensures
            r@ == Map::<Seq<char>, SchemeCounters>::empty(),
            r.cap() == DEFAULT_SAMPLE_CAP,
    {
        Self::with_sample_cap(DEFAULT_SAMPLE_CAP)
    }

    /// A registry without attempts that halves the counters of a way at `cap`
    /// attempts.
    pub fn with_sample_cap(cap: u32) -> (r: TransportHintRegistry)
        ensures
            r@ == Map::<Seq<char>, SchemeCounters>::empty(),
            r.cap() == cap,
    {
        let r = TransportHintRegistry { entries: Vec::new(), sample_cap: cap };
        assert(r@ =~= Map::<Seq<char>, SchemeCounters>::empty());
        r
    }

    /// Counts the outcome of one attempt.
    pub fn record(&mut self, scheme: &str, success: bool)
        ensures
            final(self)@ == old(self)@.insert(
                scheme@,
                old(self).counters(scheme@).after(old(self).cap(), success),
            ),
            final(self).cap() == old(self).cap(),
    {
        proof {
            use_type_invariant(&*self);
        }
        let n: usize = self.entries.len();
        let ghost before = self.entries@;
        let mut i: usize = 0;
        while i < n && !same_text(self.entries[i].0.as_str(), scheme)
            invariant
                0 <= i <= n,
                n == self.entries@.len(),
                forall|j: int| 0 <= j < i ==> (#[trigger] self.entries@[j]).0@ != scheme@,
            decreases n - i,
        {
            i = i + 1;
        }
        let mut c: SchemeCounters = if i < n {
            proof {
                lemma_entry(before, i as int);
            }
            self.entries[i].1
        } else {
            SchemeCounters { success: 0, failure: 0 }
        };
        assert(c == self.counters(scheme@));
        if c.total() >= self.sample_cap {
            c.success = c.success / 2;
            c.failure = c.failure / 2;
        }
        if success {
            c.success = c.success + 1;
        } else {
            c.failure = c.failure + 1;
        }
        let mut entries: Vec<(String, SchemeCounters)> = Vec::new();
        std::mem::swap(&mut entries, &mut self.entries);
        let name: String = String::from_str(scheme);
        if i < n {
            entries.set(i, (name, c));
        } else {
            entries.push((name, c));
        }
        proof {
            let after = entries@;
            assert forall|j: int| 0 <= j < before.len() implies (#[trigger] after[j]).0@
                == before[j].0@ by {}
            assert(names_unique(after));
            assert(after[i as int].0@ == scheme@);
            lemma_entry(after, i as int);
            assert forall|k: Seq<char>| has_name(after, k) == (has_name(before, k) || k
                == scheme@) by {
                if has_name(before, k) {
                    assert(after[index_of(before, k)].0@ == k);
                }
                if has_name(after, k) && k != scheme@ {
                    assert(before[index_of(after, k)].0@ == k);
                }
            }
            assert forall|k: Seq<char>| has_name(after, k) && k != scheme@ implies counters_of(
                after,
            )[k] == counters_of(before)[k] by {
                let j = index_of(after, k);
                lemma_entry(after, j);
                lemma_entry(before, j);
            }
            assert(counters_of(after) =~= counters_of(before).insert(scheme@, c));
        }
        self.entries = entries;
    }

    /// The ways that were tried at all, the most promising first.
    pub fn ranked_snapshot(&self) -> (r: Vec<(String, SchemeCounters)>)
        ensures
            forall|i: int, j: int|
                0 <= i < j < r@.len() ==> ranks_above(
                    #[trigger] entries_of(r@)[i],
                    #[trigger] entries_of(r@)[j],
                ),
            forall|i: int|
                0 <= i < r@.len() ==> {
                    let e = #[trigger] entries_of(r@)[i];
                    self@.contains_key(e.0) && self@[e.0] == e.1 && e.1.attempts() > 0
                },
            forall|name: Seq<char>| #[trigger]
                self@.contains_key(name) && self@[name].attempts() > 0 ==> entries_of(
                    r@,
                ).contains((name, self@[name])),
    {
        proof {
            use_type_invariant(self);
        }
        let mut r: Vec<(String, SchemeCounters)> = Vec::new();
        let mut i: usize = 0;
        while i < self.entries.len()
            invariant
                0 <= i <= self.entries@.len(),
                names_unique(self.entries@),
                sorted(entries_of(r@)),
                forall|k: int|
                    0 <= k < r@.len() ==> entries_of(self.entries@.take(i as int)).contains(
                        #[trigger] entries_of(r@)[k],
                    ) && entries_of(r@)[k].1.attempts() > 0,
                forall|k: int|
                    0 <= k < i && (#[trigger] self.entries@[k]).1.attempts() > 0
                        ==> entries_of(r@).contains(entries_of(self.entries@)[k]),
            decreases self.entries@.len() - i,
        {
            let c: SchemeCounters = self.entries[i].1;
            let ghost all = self.entries@;
            let ghost before = entries_of(r@);
            proof {
                assert forall|k: int| 0 <= k < r@.len() implies entries_of(
                    all.take(i + 1),
                ).contains(#[trigger] before[k]) by {
                    let m = choose|m: int|
                        0 <= m < i && entries_of(all.take(i as int))[m] == before[k];
                    assert(entries_of(all.take(i + 1))[m] == before[k]);
                }
            }
            if c.total() > 0 {
                let name: String = self.entries[i].0.clone();
                let ghost e = (name@, c);
                proof {
                    assert(entries_of(all)[i as int] == e);
                    assert(entries_of(all.take(i + 1))[i as int] == e);
                    assert forall|k: int| 0 <= k < r@.len() implies (#[trigger] before[k]).0
                        != e.0 by {
                        let m = choose|m: int|
                            0 <= m < i && entries_of(all.take(i as int))[m] == before[k];
                        assert(all[m].0@ == before[k].0);
                        assert(all[m].0@ != all[i as int].0@);
                    }
                }
                place(&mut r, name, c);
                let ghost after = entries_of(r@);
                proof {
                    let p = choose|p: int|
                        0 <= p <= before.len() && after == before.insert(p, e);
                    assert forall|k: int| 0 <= k < after.len() implies entries_of(
                        all.take(i + 1),
                    ).contains(#[trigger] after[k]) && after[k].1.attempts() > 0 by {
                        if k < p {
                            assert(after[k] == before[k]);
                        } else if k > p {
                            assert(after[k] == before[k - 1]);
                        }
                    }
                    assert(after[p] == e);
                    assert forall|k: int|
                        0 <= k < i + 1 && (#[trigger] all[k]).1.attempts() > 0 implies after.contains(
                        entries_of(all)[k]) by {
                        if k < i {
                            let q = choose|q: int|
                                0 <= q < before.len() && before[q] == entries_of(all)[k];
                            if q < p {
                                assert(after[q] == before[q]);
                            } else {
                                assert(after[q + 1] == before[q]);
                            }
                        }
                    }
                }
            }
            i = i + 1;
        }
        proof {
            let all = self.entries@;
            assert(all.take(i as int) =~= all);
            assert forall|k: int| 0 <= k < r@.len() implies {
                let e = #[trigger] entries_of(r@)[k];
                self@.contains_key(e.0) && self@[e.0] == e.1 && e.1.attempts() > 0
            } by {
                let m = choose|m: int| 0 <= m < all.len() && entries_of(all)[m] == entries_of(r@)[k];
                lemma_entry(all, m);
            }
            assert forall|name: Seq<char>| #[trigger]
                self@.contains_key(name) && self@[name].attempts() > 0 implies entries_of(
                r@,
            ).contains((name, self@[name])) by {
                let m = index_of(all, name);
                assert(all[m].0@ == name);
                lemma_entry(all, m);
                assert(entries_of(all)[m] == (name, self@[name]));
            }
        }
        r
    }
}

/// Whether each entry ranks above all behind it.
pub open spec fn sorted(v: Seq<(Seq<char>, SchemeCounters)>) -> bool {
    forall|i: int, j: int|
        0 <= i < j < v.len() ==> ranks_above(#[trigger] v[i], #[trigger] v[j])
}

proof fn lemma_rank_total(a: (Seq<char>, SchemeCounters), b: (Seq<char>, SchemeCounters))
    requires
        a.0 != b.0,
    ensures
        ranks_above(a, b) || ranks_above(b, a),
{
    lemma_text_order(a.0, b.0);
}

proof fn lemma_rank_transitive(
    a: (Seq<char>, SchemeCounters),
    b: (Seq<char>, SchemeCounters),
    c: (Seq<char>, SchemeCounters),
)
    requires
        ranks_above(a, b),
        ranks_above(b, c),
    ensures
        ranks_above(a, c),
{
    if text_before(a.0, b.0) && text_before(b.0, c.0) {
        lemma_text_transitive(a.0, b.0, c.0);
    }
}

/// Whether one way ranks above another.
fn above(a: (&str, SchemeCounters), b: (&str, SchemeCounters)) -> (r: bool)
    ensures
        r == ranks_above((a.0@, a.1), (b.0@, b.1)),
{
    let p: u8 = a.1.success_pct();
    let q: u8 = b.1.success_pct();
    if p != q {
        return p > q;
    }
    let m: u32 = a.1.total();
    let n: u32 = b.1.total();
    if m != n {
        return m > n;
    }
    comes_before(a.0, b.0)
}

/// Puts one way where it belongs in a ranking that it is not in yet.
fn place(r: &mut Vec<(String, SchemeCounters)>, name: String, c: SchemeCounters)
    requires
        sorted(entries_of(old(r)@)),
        forall|k: int| 0 <= k < old(r)@.len() ==> (#[trigger] entries_of(old(r)@)[k]).0 != name@,
    ensures
        sorted(entries_of(final(r)@)),
        exists|p: int|
            0 <= p <= old(r)@.len() && entries_of(final(r)@) == entries_of(old(r)@).insert(
                p,
                (name@, c),
            ),
{
    let ghost before = entries_of(r@);
    let ghost e = (name@, c);
    let n: usize = r.len();
    let mut p: usize = 0;
    while p < n && !above((name.as_str(), c), (r[p].0.as_str(), r[p].1))
        invariant
            0 <= p <= n,
            n == r@.len(),
            before == entries_of(r@),
            e == (name@, c),
            forall|k: int| 0 <= k < n ==> (#[trigger] before[k]).0 != e.0,
            forall|k: int| 0 <= k < p ==> ranks_above(#[trigger] before[k], e),
        decreases n - p,
    {
        proof {
            assert(before[p as int] == (r@[p as int].0@, r@[p as int].1));
            lemma_rank_total(before[p as int], e);
        }
        p = p + 1;
    }
    proof {
        if p < n {
            assert(before[p as int] == (r@[p as int].0@, r@[p as int].1));
        }
    }
    r.insert(p, (name, c));
    proof {
        let after = entries_of(r@);
        assert(after =~= before.insert(p as int, e));
        assert forall|k: int| p <= k < n implies ranks_above(e, #[trigger] before[k]) by {
            if k > p {
                assert(ranks_above(before[p as int], before[k]));
                lemma_rank_transitive(e, before[p as int], before[k]);
            }
        }
        assert forall|i: int, j: int| 0 <= i < j < after.len() implies ranks_above(
            #[trigger] after[i],
            #[trigger] after[j],
        ) by {
            let x = if i < p { i } else { i - 1 };
            let y = if j < p { j } else { j - 1 };
            if i != p {
                assert(after[i] == before[x]);
            }
            if j != p {
                assert(after[j] == before[y]);
            }
        }
    }
}

impl TransportHintSink for TransportHintRegistry {
    open spec fn recorded(self, scheme: Seq<char>, success: bool, next: Self) -> bool {
        &&& next@ == self@.insert(scheme, self.counters(scheme).after(self.cap(), success))
        &&& next.cap() == self.cap()
    }

    fn record(&mut self, scheme: &str, success: bool) {
        TransportHintRegistry::record(self, scheme, success)
    }
}

/// No way has a share of successes above 100 percent, and one without failures
/// has all of it.
pub proof fn share_is_a_percentage(c: SchemeCounters)
    ensures
        0 <= c.percent() <= 100,
        c.success > 0 && c.failure == 0 ==> c.percent() == 100,
        c.success == 0 ==> c.percent() == 0,
{
    if c.attempts() > 0 {
        let n = c.attempts() as int;
        assert(0 <= (c.success * 100) / n <= 100) by (nonlinear_arith)
            requires
                n > 0,
                0 <= c.success <= n,
        ;
        if c.success > 0 && c.failure == 0 {
            assert((c.success * 100) / n == 100) by (nonlinear_arith)
                requires
                    n > 0,
                    n == c.success,
            ;
        }
    }
}

/// An attempt counts for at most one: the counters of a way never hold more
/// attempts than its cap, and at least one after any attempt.
pub proof fn attempts_stay_bounded(c: SchemeCounters, cap: u32, success: bool)
    requires
        cap > 0,
        c.attempts() <= cap,
    ensures
        0 < c.after(cap, success).attempts() <= cap,
{
}

/// An attempt is counted for its own way and no other; where as many are counted as the
/// cap, what was counted before is halved first.
pub proof fn attempts_are_counted(
    r: &mut TransportHintRegistry,
    scheme: &str,
    success: bool,
    other: Seq<char>,
)
    requires
        other != scheme@,
        call_ensures(TransportHintRegistry::record, (r, scheme, success), ()),
    ensures
        ({
            let was = if old(r)@.contains_key(scheme@) {
                old(r)@[scheme@]
            } else {
                SchemeCounters { success: 0, failure: 0 }
            };
            let is = final(r)@[scheme@];
            &&& final(r)@.contains_key(scheme@)
            &&& was.success + was.failure < old(r).cap() && success ==> is.success == was.success
                + 1 && is.failure == was.failure
            &&& was.success + was.failure < old(r).cap() && !success ==> is.success == was.success
                && is.failure == was.failure + 1
            &&& old(r).cap() <= was.success + was.failure <= u32::MAX && success ==> is.success
                == was.success / 2 + 1 && is.failure == was.failure / 2
            &&& old(r).cap() <= was.success + was.failure <= u32::MAX && !success ==> is.success
                == was.success / 2 && is.failure == was.failure / 2 + 1
        }),
        final(r)@.contains_key(other) == old(r)@.contains_key(other),
        old(r)@.contains_key(other) ==> final(r)@[other] == old(r)@[other],
        final(r).cap() == old(r).cap(),
{
}

/// The share of successes is the largest whole percentage that is not above them.
pub proof fn shares_are_whole_percentages(c: &SchemeCounters, p: u8, n: u32)
    requires
        call_ensures(SchemeCounters::success_pct, (c,), p),
        call_ensures(SchemeCounters::total, (c,), n),
    ensures
        c.success + c.failure <= u32::MAX ==> n == c.success + c.failure,
        c.success + c.failure > u32::MAX ==> n == u32::MAX,
        n == 0 ==> p == 0,
        n > 0 ==> p * n <= 100 * c.success < (p + 1) * n,
        p <= 100,
{
    if n > 0 {
        let a = (c.success * 100) as int;
        let m = n as int;
        assert(m * (a / m) <= a < m * (a / m) + m) by (nonlinear_arith)
            requires
                m > 0,
        ;
        let q = p as int;
        assert(q == a / m);
        assert(q * m == m * q) by (nonlinear_arith);
        assert((q + 1) * m == m * q + m) by (nonlinear_arith);
    }
}

/// A ranking lists the ways that were tried, each with its counters, the larger share of
/// successes first and, of equal shares, the more attempts.
pub proof fn the_most_promising_way_is_first(
    r: &TransportHintRegistry,
    v: Vec<(String, SchemeCounters)>,
    i: int,
    j: int,
    pi: u8,
    pj: u8,
    ni: u32,
    nj: u32,
)
    requires
        call_ensures(TransportHintRegistry::ranked_snapshot, (r,), v),
        0 <= i < j < v@.len(),
        call_ensures(SchemeCounters::success_pct, (&v@[i].1,), pi),
        call_ensures(SchemeCounters::success_pct, (&v@[j].1,), pj),
        call_ensures(SchemeCounters::total, (&v@[i].1,), ni),
        call_ensures(SchemeCounters::total, (&v@[j].1,), nj),
    ensures
        pi >= pj,
        pi == pj ==> ni >= nj,
        ni > 0 && nj > 0,
        v@[i].0@ != v@[j].0@,
        r@.contains_key(v@[i].0@) && r@[v@[i].0@] == v@[i].1,
{
    let a = entries_of(v@)[i];
    let b = entries_of(v@)[j];
    assert(a == (v@[i].0@, v@[i].1));
    assert(b == (v@[j].0@, v@[j].1));
    crate::text::lemma_text_order(a.0, b.0);
}

/// A registry starts without attempts and halves at 1024 of them unless told otherwise.
pub proof fn a_hint_registry_starts_empty(
    a: TransportHintRegistry,
    cap: u32,
    b: TransportHintRegistry,
    name: Seq<char>,
)
    requires
        call_ensures(TransportHintRegistry::new, (), a),
        call_ensures(TransportHintRegistry::with_sample_cap, (cap,), b),
    ensures
        !a@.contains_key(name) && !b@.contains_key(name),
        a.cap() == 1024 && b.cap() == cap,
{
}

} // verus!
