//! A bounded table of what is known of each peer.

use crate::table::{lemma_row, row_of, Table};
use crate::time::Instant;
use vstd::prelude::*;

verus! {

/// A value and the moment at which it was put into the table.
pub struct Stamped<V> {
    pub stamp: Instant,
    pub value: V,
}

/// What is known of each peer, at most `capacity` of them.
pub struct BoundedPeerMap<V> {
    pub rows: Table<Stamped<V>>,
    pub capacity: usize,
}

/// Whether `k` is a key whose value has been in the table longest.
pub open spec fn oldest_key<V>(m: Map<Seq<u8>, Stamped<V>>, k: Seq<u8>) -> bool {
    &&& m.contains_key(k)
    &&& forall|j: Seq<u8>| #[trigger] m.contains_key(j) ==> m[k].stamp@ <= m[j].stamp@
}

impl<V> BoundedPeerMap<V> {
    /// An empty table for `capacity` peers.
    pub fn new(capacity: usize) -> (t: BoundedPeerMap<V>)
        ensures
            t.rows@ == Map::<Seq<u8>, Stamped<V>>::empty(),
            t.capacity == capacity,
    {
        BoundedPeerMap { rows: Table::new(), capacity }
    }

    /// The number of peers in the table.
    pub fn len(&self) -> (n: usize)
        ensures
            n == self.rows@.len(),
    {
        self.rows.len()
    }

    /// What is known of a peer.
    pub fn get(&self, peer: &[u8]) -> (r: Option<&V>)
        ensures
            r is Some == self.rows@.contains_key(peer@),
            r matches Some(v) ==> *v == self.rows@[peer@].value,
    {
        match self.rows.get(peer) {
            Some(s) => Some(&s.value),
            None => None,
        }
    }

    /// Whether the table takes no other peer without losing one.
    pub open spec fn full(self) -> bool {
        self.rows@.len() >= self.capacity && self.rows@.len() > 0
    }

    /// Forgets the peer that has been in the table longest.
    fn forget_oldest(&mut self)
        requires
            old(self).rows@.len() > 0,
        ensures
            exists|k: Seq<u8>| #[trigger]
                oldest_key(old(self).rows@, k) && final(self).rows@ == old(self).rows@.remove(k),
            final(self).rows@.dom().finite(),
            final(self).rows@.len() == old(self).rows@.len() - 1,
            final(self).capacity == old(self).capacity,
    {
        let n: usize = self.rows.len();
        let mut best: usize = 0;
        let mut i: usize = 1;
        while i < n
            invariant
                0 <= best < n,
                1 <= i <= n,
                n == self.rows.rows().len(),
                *self == *old(self),
                forall|j: int|
                    0 <= j < i ==> self.rows.rows()[best as int].1.stamp@ <= (
                    #[trigger] self.rows.rows()[j]).1.stamp@,
            decreases n - i,
        {
            if !self.rows.value_at(i).stamp.not_before(self.rows.value_at(best).stamp) {
                best = i;
            }
            i = i + 1;
        }
        let ghost rows = self.rows.rows();
        let ghost m = self.rows@;
        let ghost k = rows[best as int].0;
        let _ = self.rows.remove_at(best);
        proof {
            use_type_invariant(&self.rows);
        }
        proof {
            lemma_row(rows, best as int);
            assert forall|j: Seq<u8>| #[trigger] m.contains_key(j) implies m[k].stamp@
                <= m[j].stamp@ by {
                lemma_row(rows, row_of(rows, j));
            }
            assert(oldest_key(m, k));
        }
    }

    /// The table after a value was put in: when the table was full, a peer that
    /// has been in it longest has left.
    pub open spec fn put(
        before: Map<Seq<u8>, Stamped<V>>,
        full: bool,
        peer: Seq<u8>,
        entry: Stamped<V>,
        after: Map<Seq<u8>, Stamped<V>>,
    ) -> bool {
        if full {
            exists|k: Seq<u8>| #[trigger]
                oldest_key(before, k) && after == before.remove(k).insert(peer, entry)
        } else {
            after == before.insert(peer, entry)
        }
    }

    /// Puts in what is known of a peer at `now`. When the table is full, the peer
    /// that has been in it longest is forgotten first.
    pub fn insert_evicting_oldest(&mut self, peer: &[u8], value: V, now: Instant)
        ensures
            Self::put(
                old(self).rows@,
                old(self).full(),
                peer@,
                Stamped { stamp: now, value },
                final(self).rows@,
            ),
            final(self).rows@.contains_key(peer@),
            final(self).rows@[peer@].value == value,
            final(self).capacity == old(self).capacity,
            old(self).rows@.len() <= old(self).capacity && old(self).capacity > 0
                ==> final(self).rows@.len() <= final(self).capacity,
    {
        let n: usize = self.rows.len();
        if n >= self.capacity && n > 0 {
            self.forget_oldest();
        }
        let _ = self.rows.insert(peer, Stamped { stamp: now, value });
    }

    /// Puts in what is known of a peer at `now`. When the table is full and the
    /// peer is not in it, some other peer is forgotten first.
    pub fn insert_evicting_any(&mut self, peer: &[u8], value: V, now: Instant)
        ensures
            if old(self).full() && !old(self).rows@.contains_key(peer@) {
                exists|k: Seq<u8>| #[trigger]
                    old(self).rows@.contains_key(k) && final(self).rows@ == old(self).rows@.remove(
                        k,
                    ).insert(peer@, Stamped { stamp: now, value })
            } else {
                final(self).rows@ == old(self).rows@.insert(peer@, Stamped { stamp: now, value })
            },
            final(self).capacity == old(self).capacity,
            old(self).rows@.len() <= old(self).capacity && old(self).capacity > 0
                ==> final(self).rows@.len() <= final(self).capacity,
    {
        let n: usize = self.rows.len();
        if n >= self.capacity && n > 0 && !self.rows.contains(peer) {
            let ghost rows = self.rows.rows();
            proof {
                lemma_row(rows, 0);
            }
            let _ = self.rows.remove_at(0);
            proof {
                use_type_invariant(&self.rows);
            }
        }
        let _ = self.rows.insert(peer, Stamped { stamp: now, value });
    }
}

/// What was put in for a peer is what is known of it afterwards, under either way of
/// making room; whoever is still in the table is known as before, and the table does not
/// grow beyond its capacity.
pub proof fn what_is_put_in_is_known<V>(
    t: &mut BoundedPeerMap<V>,
    u: &mut BoundedPeerMap<V>,
    peer: &[u8],
    value: V,
    now: Instant,
    got: Option<&V>,
    also: Option<&V>,
    other: Seq<u8>,
)
    requires
        other != peer@,
        call_ensures(BoundedPeerMap::<V>::insert_evicting_oldest, (t, peer, value, now), ()),
        call_ensures(BoundedPeerMap::<V>::insert_evicting_any, (u, peer, value, now), ()),
        call_ensures(BoundedPeerMap::<V>::get, (&*final(t), peer), got),
        call_ensures(BoundedPeerMap::<V>::get, (&*final(u), peer), also),
    ensures
        got is Some && *got->0 == value,
        also is Some && *also->0 == value,
        final(t).rows@[peer@].stamp == now,
        final(u).rows@[peer@].stamp == now,
        final(t).rows@.contains_key(other) ==> old(t).rows@.contains_key(other) && final(t).rows@[other] == old(t).rows@[other],
        final(u).rows@.contains_key(other) ==> old(u).rows@.contains_key(other) && final(u).rows@[other] == old(u).rows@[other],
        old(t).rows@.len() < old(t).capacity && old(t).rows@.contains_key(other) ==> final(t).rows@.contains_key(other),
        old(u).rows@.len() < old(u).capacity && old(u).rows@.contains_key(other) ==> final(u).rows@.contains_key(other),
        old(u).rows@.contains_key(peer@) && old(u).rows@.contains_key(other) ==> final(u).rows@.contains_key(other),
        0 < old(t).capacity && old(t).rows@.len() <= old(t).capacity ==> final(t).rows@.len()
            <= final(t).capacity,
        0 < old(u).capacity && old(u).rows@.len() <= old(u).capacity ==> final(u).rows@.len()
            <= final(u).capacity,
        final(t).capacity == old(t).capacity,
        final(u).capacity == old(u).capacity,
{
}

/// A peer that leaves a full table to make room has been in it at least as long as any
/// that stays.
pub proof fn the_longest_known_peer_leaves<V>(
    t: &mut BoundedPeerMap<V>,
    peer: &[u8],
    value: V,
    now: Instant,
    left: Seq<u8>,
    stayed: Seq<u8>,
)
    requires
        call_ensures(BoundedPeerMap::<V>::insert_evicting_oldest, (t, peer, value, now), ()),
        old(t).rows@.contains_key(left),
        !final(t).rows@.contains_key(left),
        old(t).rows@.contains_key(stayed),
    ensures
        old(t).rows@.len() >= old(t).capacity,
        old(t).rows@[left].stamp@ <= old(t).rows@[stayed].stamp@,
        stayed != left && stayed != peer@ ==> final(t).rows@.contains_key(stayed),
{
    let k = choose|k: Seq<u8>| #[trigger]
        oldest_key(old(t).rows@, k) && final(t).rows@ == old(t).rows@.remove(k).insert(
            peer@,
            Stamped { stamp: now, value },
        );
    assert(k == left);
}

} // verus!
