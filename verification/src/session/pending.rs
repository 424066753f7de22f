//! Requests of this side that wait for their answer.

use crate::time::{Duration, Instant};
use vstd::prelude::*;

verus! {

/// A request that waits for its answer: its number, when it was sent, and where
/// the answer goes.
pub struct PendingResponse<R> {
    pub request_id: u64,
    pub since: Instant,
    pub reply_to: R,
}

/// The requests that wait, at most `capacity` of them and each for at most `ttl`.
pub struct PendingResponseTable<R> {
    pub entries: Vec<PendingResponse<R>>,
    pub capacity: usize,
    pub ttl: Duration,
}

/// Whether no request number occurs twice.
pub open spec fn ids_unique<R>(s: Seq<PendingResponse<R>>) -> bool {
    forall|i: int, j: int|
        0 <= i < j < s.len() ==> #[trigger] s[i].request_id != #[trigger] s[j].request_id
}

/// The requests that have not waited for `ttl` at `now`, in their order.
pub open spec fn unexpired<R>(s: Seq<PendingResponse<R>>, now: Instant, ttl: nat) -> Seq<
    PendingResponse<R>,
>
    decreases s.len(),
{
    if s.len() == 0 {
        Seq::empty()
    } else if now.elapsed(s.last().since) >= ttl {
        unexpired(s.drop_last(), now, ttl)
    } else {
        unexpired(s.drop_last(), now, ttl).push(s.last())
    }
}

/// Whether the request at `i` has waited longest, the first of several.
pub open spec fn waited_longest<R>(s: Seq<PendingResponse<R>>, i: int) -> bool {
    &&& 0 <= i < s.len()
    &&& forall|j: int| 0 <= j < s.len() ==> s[i].since@ <= (#[trigger] s[j]).since@
    &&& forall|j: int| 0 <= j < i ==> s[i].since@ < (#[trigger] s[j]).since@
}

/// The position of a request number.
pub open spec fn position<R>(s: Seq<PendingResponse<R>>, id: u64) -> Option<int>
    decreases s.len(),
{
    if s.len() == 0 {
        None
    } else if s.last().request_id == id {
        Some(s.len() - 1)
    } else {
        position(s.drop_last(), id)
    }
}

pub(crate) proof fn lemma_position<R>(s: Seq<PendingResponse<R>>, id: u64)
    ensures
        match position(s, id) {
            Some(i) => 0 <= i < s.len() && s[i].request_id == id,
            None => forall|i: int| 0 <= i < s.len() ==> (#[trigger] s[i]).request_id != id,
        },
    decreases s.len(),
{
    if s.len() > 0 {
        lemma_position(s.drop_last(), id);
        if position(s, id) is None {
            assert forall|i: int| 0 <= i < s.len() implies (#[trigger] s[i]).request_id != id by {
                if i < s.len() - 1 {
                    assert(s.drop_last()[i].request_id != id);
                }
            }
        }
    }
}

/// The requests without the one with a number.
pub open spec fn without<R>(s: Seq<PendingResponse<R>>, id: u64) -> Seq<PendingResponse<R>> {
    match position(s, id) {
        Some(i) => s.remove(i),
        None => s,
    }
}

impl<R> PendingResponseTable<R> {
    /// Whether no request number occurs twice.
    pub open spec fn sound(self) -> bool {
        ids_unique(self.entries@)
    }

    /// No request waits.
    pub fn new(capacity: usize, ttl: Duration) -> (t: PendingResponseTable<R>)
        ensures
            t.entries@ == Seq::<PendingResponse<R>>::empty(),
            t.capacity == capacity,
            t.ttl == ttl,
            t.sound(),
    {
        PendingResponseTable { entries: Vec::new(), capacity, ttl }
    }

    /// The number of requests that wait.
    pub fn len(&self) -> (n: usize)
        ensures
            n == self.entries@.len(),
    {
        self.entries.len()
    }

    /// Drops the requests that have waited too long at `now`.
    pub fn evict_expired(&mut self, now: Instant)
        requires
            old(self).sound(),
        ensures
            final(self).entries@ == unexpired(old(self).entries@, now, old(self).ttl@),
            final(self).capacity == old(self).capacity,
            final(self).ttl == old(self).ttl,
            final(self).sound(),
            final(self).entries@.len() <= old(self).entries@.len(),
    {
        let ghost before = self.entries@;
        let mut all: Vec<PendingResponse<R>> = Vec::new();
        std::mem::swap(&mut all, &mut self.entries);
        let ghost mut done: int = 0;
        proof {
            assert(before.skip(0) =~= before);
            assert(before.take(0) =~= Seq::<PendingResponse<R>>::empty());
        }
        while all.len() > 0
            invariant
                0 <= done <= before.len(),
                all@ == before.skip(done),
                self.entries@ == unexpired(before.take(done), now, self.ttl@),
                self.entries@.len() <= done,
                self.capacity == old(self).capacity,
                self.ttl == old(self).ttl,
            decreases all@.len(),
        {
            let e: PendingResponse<R> = all.remove(0);
            proof {
                assert(before.skip(done).remove(0) =~= before.skip(done + 1));
                assert(before.take(done + 1).drop_last() =~= before.take(done));
                assert(before.take(done + 1).last() == e);
                done = done + 1;
            }
            if !now.elapsed_at_least(e.since, self.ttl, 1) {
                self.entries.push(e);
            }
        }
        proof {
            assert(before.take(done) =~= before);
            lemma_unexpired_unique(before, now, self.ttl@);
        }
    }

    /// Drops the request that has waited longest when no other would fit.
    pub fn evict_oldest_if_at_capacity(&mut self)
        requires
            old(self).sound(),
        ensures
            final(self).capacity == old(self).capacity,
            final(self).ttl == old(self).ttl,
            final(self).sound(),
            if old(self).entries@.len() >= old(self).capacity && old(self).entries@.len() > 0 {
                exists|i: int| #[trigger]
                    waited_longest(old(self).entries@, i) && final(self).entries@ == old(
                        self,
                    ).entries@.remove(i)
            } else {
                final(self).entries@ == old(self).entries@
            },
    {
        if self.entries.len() < self.capacity || self.entries.len() == 0 {
            return;
        }
        let mut best: usize = 0;
        let mut i: usize = 1;
        while i < self.entries.len()
            invariant
                1 <= i <= self.entries@.len(),
                best < i,
                *self == *old(self),
                forall|j: int|
                    0 <= j < i ==> self.entries@[best as int].since@ <= (
                    #[trigger] self.entries@[j]).since@,
                forall|j: int|
                    0 <= j < best ==> self.entries@[best as int].since@ < (
                    #[trigger] self.entries@[j]).since@,
            decreases self.entries@.len() - i,
        {
            if !self.entries[i].since.not_before(self.entries[best].since) {
                best = i;
            }
            i = i + 1;
        }
        assert(waited_longest(self.entries@, best as int));
        let _ = self.entries.remove(best);
        assert(ids_unique(self.entries@));
    }

    /// Adds a request sent at `now`, in place of one with the same number.
    pub fn insert(&mut self, request_id: u64, reply_to: R, now: Instant)
        requires
            old(self).sound(),
        ensures
            final(self).entries@ == without(old(self).entries@, request_id).push(
                PendingResponse { request_id, since: now, reply_to },
            ),
            final(self).capacity == old(self).capacity,
            final(self).ttl == old(self).ttl,
            final(self).sound(),
    {
        let _ = self.take(request_id);
        self.entries.push(PendingResponse { request_id, since: now, reply_to });
    }

    /// Takes out the request with a number, whose answer has come.
    pub fn take(&mut self, request_id: u64) -> (r: Option<R>)
        requires
            old(self).sound(),
        ensures
            final(self).entries@ == without(old(self).entries@, request_id),
            final(self).capacity == old(self).capacity,
            final(self).ttl == old(self).ttl,
            final(self).sound(),
            r is Some == position(old(self).entries@, request_id) is Some,
            r matches Some(x) ==> x == old(self).entries@[position(
                old(self).entries@,
                request_id,
            )->0].reply_to,
            forall|i: int|
                0 <= i < final(self).entries@.len() ==> (
                #[trigger] final(self).entries@[i]).request_id != request_id,
    {
        let ghost before = self.entries@;
        let mut left: usize = self.entries.len();
        assert(before.take(left as int) =~= before);
        while left > 0
            invariant
                0 <= left <= before.len(),
                before == old(self).entries@,
                *self == *old(self),
                ids_unique(before),
                position(before, request_id) == position(before.take(left as int), request_id),
            decreases left,
        {
            proof {
                assert(before.take(left as int).drop_last() =~= before.take(left - 1));
            }
            if self.entries[left - 1].request_id == request_id {
                let e: PendingResponse<R> = self.entries.remove(left - 1);
                assert(ids_unique(self.entries@));
                return Some(e.reply_to);
            }
            left = left - 1;
        }
        proof {
            lemma_position(before, request_id);
        }
        None
    }
}

proof fn lemma_unexpired_unique<R>(s: Seq<PendingResponse<R>>, now: Instant, ttl: nat)
    requires
        ids_unique(s),
    ensures
        ids_unique(unexpired(s, now, ttl)),
        forall|i: int|
            0 <= i < unexpired(s, now, ttl).len() ==> s.contains(
                #[trigger] unexpired(s, now, ttl)[i],
            ),
    decreases s.len(),
{
    if s.len() > 0 {
        lemma_unexpired_unique(s.drop_last(), now, ttl);
        let u = unexpired(s.drop_last(), now, ttl);
        let w = unexpired(s, now, ttl);
        assert forall|i: int| 0 <= i < u.len() implies s.contains(#[trigger] u[i])
            && u[i].request_id != s.last().request_id by {
            assert(s.drop_last().contains(u[i]));
            let k = choose|k: int| 0 <= k < s.drop_last().len() && s.drop_last()[k] == u[i];
            assert(s[k] == u[i]);
        }
        assert forall|i: int| 0 <= i < w.len() implies s.contains(#[trigger] w[i]) by {
            if i < u.len() {
                assert(w[i] == u[i]);
            } else {
                assert(s[s.len() - 1] == w[i]);
            }
        }
        assert forall|i: int, j: int| 0 <= i < j < w.len() implies #[trigger] w[i].request_id
            != #[trigger] w[j].request_id by {
            assert(w[i] == u[i]);
            if j < u.len() {
                assert(w[j] == u[j]);
            }
        }
    }
}

/// A request that was added is answered under its number, as long as it was not
/// dropped, and its answer is taken once.
pub proof fn added_request_is_found<R>(s: Seq<PendingResponse<R>>, e: PendingResponse<R>)
    ensures
        position(without(s, e.request_id).push(e), e.request_id) == Some(
            without(s, e.request_id).len() as int,
        ),
        ids_unique(without(s, e.request_id).push(e)) ==> position(
            without(without(s, e.request_id).push(e), e.request_id),
            e.request_id,
        ) is None,
{
    let t = without(s, e.request_id).push(e);
    let k = without(s, e.request_id).len() as int;
    assert(position(t, e.request_id) == Some(k));
    if ids_unique(t) {
        let u = without(t, e.request_id);
        assert(u =~= without(s, e.request_id));
        lemma_position(u, e.request_id);
        if position(u, e.request_id) is Some {
            let i = position(u, e.request_id)->0;
            assert(t[i].request_id == t[k].request_id);
        }
    }
}

pub(crate) proof fn lemma_unexpired<R>(s: Seq<PendingResponse<R>>, now: Instant, ttl: nat)
    ensures
        forall|e: PendingResponse<R>| #[trigger]
            unexpired(s, now, ttl).contains(e) <==> s.contains(e) && !(ttl == 0 || now@ >= e.since@
                + ttl),
    decreases s.len(),
{
    if s.len() > 0 {
        let rest = s.drop_last();
        lemma_unexpired(rest, now, ttl);
        assert forall|e: PendingResponse<R>| #[trigger]
            unexpired(s, now, ttl).contains(e) <==> s.contains(e) && !(ttl == 0 || now@ >= e.since@
                + ttl) by {
            let kept = unexpired(rest, now, ttl);
            if s.contains(e) && e != s.last() {
                let i = choose|i: int| 0 <= i < s.len() && s[i] == e;
                assert(rest[i] == e);
            }
            if rest.contains(e) {
                let i = choose|i: int| 0 <= i < rest.len() && rest[i] == e;
                assert(s[i] == e);
            }
            assert(s[s.len() - 1] == s.last());
            assert(kept.push(s.last())[kept.len() as int] == s.last());
            if kept.contains(e) {
                let i = choose|i: int| 0 <= i < kept.len() && kept[i] == e;
                assert(kept.push(s.last())[i] == e);
            }
        }
    }
}

/// A request is dropped for its age exactly when it has waited as long as is allowed:
/// an older one never stays, and a younger one never goes.
pub proof fn requests_wait_as_long_as_allowed<R>(
    t: &mut PendingResponseTable<R>,
    now: Instant,
    e: PendingResponse<R>,
)
    requires
        call_ensures(PendingResponseTable::<R>::evict_expired, (t, now), ()),
        old(t).entries@.contains(e),
        old(t).ttl@ > 0,
    ensures
        final(t).entries@.contains(e) <==> now@ < e.since@ + old(t).ttl@,
        forall|x: PendingResponse<R>| #[trigger]
            final(t).entries@.contains(x) ==> old(t).entries@.contains(x),
        final(t).ttl == old(t).ttl,
        final(t).capacity == old(t).capacity,
{
    lemma_unexpired(old(t).entries@, now, old(t).ttl@);
}

/// Where no other request would fit, just one goes, and none that stays has waited
/// longer; where one would fit, all stay.
pub proof fn the_longest_wait_makes_room<R>(t: &mut PendingResponseTable<R>, e: PendingResponse<R>)
    requires
        call_ensures(PendingResponseTable::<R>::evict_oldest_if_at_capacity, (t,), ()),
        old(t).sound(),
        old(t).entries@.contains(e),
    ensures
        old(t).entries@.len() < old(t).capacity ==> final(t).entries@ == old(t).entries@,
        old(t).entries@.len() >= old(t).capacity ==> final(t).entries@.len() == old(
            t,
        ).entries@.len() - 1,
        !final(t).entries@.contains(e) ==> forall|i: int|
            0 <= i < final(t).entries@.len() ==> e.since@ <= (
            #[trigger] final(t).entries@[i]).since@,
        forall|x: PendingResponse<R>| #[trigger]
            final(t).entries@.contains(x) ==> old(t).entries@.contains(x),
        final(t).ttl == old(t).ttl,
        final(t).capacity == old(t).capacity,
{
    let before = old(t).entries@;
    let after = final(t).entries@;
    if before.len() >= old(t).capacity && before.len() > 0 {
        let i = choose|i: int| #[trigger] waited_longest(before, i) && after == before.remove(i);
        assert forall|x: PendingResponse<R>| #[trigger] after.contains(x) implies before.contains(
            x,
        ) by {
            let k = choose|k: int| 0 <= k < after.len() && after[k] == x;
            assert(before[if k < i { k } else { k + 1 }] == x);
        }
        if !after.contains(e) {
            let k = choose|k: int| 0 <= k < before.len() && before[k] == e;
            if k != i {
                assert(after[if k < i { k } else { k - 1 }] == e);
            }
            assert forall|j: int| 0 <= j < after.len() implies e.since@ <= (
            #[trigger] after[j]).since@ by {
                assert(after[j] == before[if j < i { j } else { j + 1 }]);
            }
        }
    }
}

/// A request that was added is the one that its answer is handed to, and the answers
/// to the others go where they went before.
pub proof fn an_answer_goes_to_its_request<R>(
    added: &mut PendingResponseTable<R>,
    taken: &mut PendingResponseTable<R>,
    request_id: u64,
    reply_to: R,
    now: Instant,
    asked: u64,
    r: Option<R>,
    e: PendingResponse<R>,
)
    requires
        old(added).sound(),
        call_ensures(PendingResponseTable::<R>::insert, (added, request_id, reply_to, now), ()),
        *old(taken) == *final(added),
        call_ensures(PendingResponseTable::<R>::take, (taken, asked), r),
        old(added).entries@.contains(e),
    ensures
        asked == request_id ==> r == Some(reply_to),
        asked != request_id && e.request_id == asked ==> r == Some(e.reply_to),
        asked != request_id && r is None ==> forall|i: int|
            0 <= i < old(added).entries@.len() ==> (#[trigger] old(added).entries@[i]).request_id
                != asked,
        forall|i: int|
            0 <= i < final(taken).entries@.len() ==> (
            #[trigger] final(taken).entries@[i]).request_id != asked,
        e.request_id != asked && e.request_id != request_id ==> final(taken).entries@.contains(e),
        final(added).entries@.last() == (PendingResponse { request_id, since: now, reply_to }),
{
    let before = old(added).entries@;
    let kept = without(before, request_id);
    let mid = final(added).entries@;
    let last = PendingResponse { request_id, since: now, reply_to };
    let after = final(taken).entries@;
    lemma_position(before, request_id);
    lemma_position(mid, asked);
    let k = choose|k: int| 0 <= k < before.len() && before[k] == e;
    assert(mid[mid.len() - 1] == last);
    if e.request_id != request_id {
        let at = match position(before, request_id) {
            Some(p) => if k < p { k } else { k - 1 },
            None => k,
        };
        assert(kept[at] == e);
        assert(mid[at] == e);
        if e.request_id == asked {
            assert(mid[position(mid, asked)->0].request_id == mid[at].request_id);
            assert(position(mid, asked)->0 == at);
        } else {
            let to = match position(mid, asked) {
                Some(p) => if at < p { at } else { at - 1 },
                None => at,
            };
            assert(after[to] == e);
        }
    }
    if asked == request_id {
        assert(position(mid, asked) == Some(mid.len() - 1));
    } else if r is None {
        assert forall|i: int| 0 <= i < before.len() implies (#[trigger] before[i]).request_id
            != asked by {
            if before[i].request_id == asked {
                let at = match position(before, request_id) {
                    Some(p) => if i < p { i } else { i - 1 },
                    None => i,
                };
                assert(mid[at] == before[i]);
            }
        }
    }
}

} // verus!
