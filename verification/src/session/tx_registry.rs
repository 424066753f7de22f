//! The queues of frames that wait to be sent, one for each session.
//!
//! A queue whose session has ended stays in the registry, closed, until a queue is
//! registered or removed; nothing can be sent to it, and it does not count as a
//! session.

use crate::bytes::{bytes_less, copy_bytes, lemma_lex_less_total, lex_less, same_bytes};
use crate::table::{keys_unique, lemma_row, lemma_table_len, row_of, Table};
use vstd::prelude::*;

verus! {

/// How many frames a queue holds at most, unless another depth is chosen.
pub const DEFAULT_TX_QUEUE_DEPTH: usize = 4096;

/// The class of frames that carry media.
pub const REALTIME: u8 = 0;

/// The class of frames that answer a user.
pub const INTERACTIVE: u8 = 1;

/// The size that a queued frame is counted with when memory is estimated.
pub const AVG_FRAME_BYTES: usize = 16384;

/// The queue of one session.
#[derive(Debug)]
pub struct SessionTx {
    /// Tells this registration of a peer from earlier ones.
    pub id: u64,
    /// The frames with their priorities, oldest first.
    pub queue: Vec<(u8, Vec<u8>)>,
    /// Whether the session has ended.
    pub closed: bool,
    /// When a frame was last sent, in milliseconds.
    pub last_active: u64,
}

/// What a queue holds.
pub struct TxState {
    pub id: u64,
    pub queue: Seq<(u8, Seq<u8>)>,
    pub closed: bool,
    pub last_active: u64,
}

impl View for SessionTx {
    type V = TxState;

    open spec fn view(&self) -> TxState {
        TxState {
            id: self.id,
            queue: Seq::new(self.queue@.len(), |i: int| (self.queue@[i].0, self.queue@[i].1@)),
            closed: self.closed,
            last_active: self.last_active,
        }
    }
}

/// What a registry holds.
pub struct RegistryState {
    pub sessions: Map<Seq<u8>, TxState>,
    pub capacity: usize,
    pub drops_total: u64,
    pub next_id: u64,
}

/// The queues of all sessions, under the identifiers of their peers.
#[derive(Debug)]
pub struct SessionTxRegistry {
    sessions: Table<SessionTx>,
    capacity: usize,
    drops_total: u64,
    next_id: u64,
}

/// What the queues of a table hold.
pub open spec fn states(m: Map<Seq<u8>, SessionTx>) -> Map<Seq<u8>, TxState> {
    m.map_values(|t: SessionTx| t@)
}

/// The queues whose sessions have not ended.
pub open spec fn live(m: Map<Seq<u8>, TxState>) -> Map<Seq<u8>, TxState> {
    Map::new(|k: Seq<u8>| m.contains_key(k) && !m[k].closed, |k: Seq<u8>| m[k])
}

/// `n + 1`, or the largest countable number.
pub open spec fn bumped(n: u64) -> u64 {
    if n == u64::MAX {
        n
    } else {
        (n + 1) as u64
    }
}

/// A queue after a frame was offered to it: a closed queue and a full one take
/// nothing.
pub open spec fn offered(t: TxState, capacity: usize, priority: u8, frame: Seq<u8>) -> TxState {
    if t.closed || t.queue.len() >= capacity {
        t
    } else {
        TxState { queue: t.queue.push((priority, frame)), ..t }
    }
}

/// Whether a queue takes a frame.
pub open spec fn takes(t: TxState, capacity: usize) -> bool {
    !t.closed && t.queue.len() < capacity
}

impl RegistryState {
    /// Whether a frame for a peer finds a queue that takes it.
    pub open spec fn accepts(self, peer: Seq<u8>) -> bool {
        self.serves(peer) && takes(self.sessions[peer], self.capacity)
    }

    /// The registry after a frame was offered to one queue.
    pub open spec fn sent_to(self, peer: Seq<u8>, priority: u8, frame: Seq<u8>, now: u64) -> RegistryState {
        if !self.sessions.contains_key(peer) || self.sessions[peer].closed {
            self
        } else if takes(self.sessions[peer], self.capacity) {
            RegistryState {
                sessions: self.sessions.insert(
                    peer,
                    TxState {
                        last_active: now,
                        ..offered(self.sessions[peer], self.capacity, priority, frame)
                    },
                ),
                ..self
            }
        } else {
            RegistryState { drops_total: counted_drops(self.drops_total, 1), ..self }
        }
    }

    /// The registry after a session with a peer was registered.
    pub open spec fn registered(self, peer: Seq<u8>, now: u64) -> RegistryState {
        RegistryState {
            sessions: live(self.sessions).insert(
                peer,
                TxState { id: self.next_id, queue: Seq::empty(), closed: false, last_active: now },
            ),
            next_id: bumped(self.next_id),
            ..self
        }
    }

    /// Whether a live session with a peer is registered.
    pub open spec fn serves(self, peer: Seq<u8>) -> bool {
        self.sessions.contains_key(peer) && !self.sessions[peer].closed
    }
}

/// The queues that are full, but for that of one peer and those that are closed.
pub open spec fn full_queues(
    m: Map<Seq<u8>, TxState>,
    capacity: usize,
    exclude: Option<Seq<u8>>,
) -> Set<Seq<u8>> {
    m.dom().filter(
        |k: Seq<u8>| exclude != Some(k) && !m[k].closed && m[k].queue.len() >= capacity,
    )
}

/// The queues after a frame was offered to all but that of one peer.
pub open spec fn after_broadcast(
    m: Map<Seq<u8>, TxState>,
    capacity: usize,
    exclude: Option<Seq<u8>>,
    priority: u8,
    frame: Seq<u8>,
) -> Map<Seq<u8>, TxState> {
    Map::new(
        |k: Seq<u8>| m.contains_key(k),
        |k: Seq<u8>|
            if exclude == Some(k) {
                m[k]
            } else {
                offered(m[k], capacity, priority, frame)
            },
    )
}

/// A count of dropped frames after `n` more. It begins again at zero when it has
/// become too large to be kept.
pub open spec fn counted_drops(drops: u64, n: nat) -> u64 {
    ((drops + n) % 0x1_0000_0000_0000_0000) as u64
}

impl RegistryState {
    /// The registry after a frame was offered to every queue but that of one peer.
    pub open spec fn broadcasted(
        self,
        exclude: Option<Seq<u8>>,
        priority: u8,
        frame: Seq<u8>,
    ) -> RegistryState {
        RegistryState {
            sessions: after_broadcast(self.sessions, self.capacity, exclude, priority, frame),
            drops_total: counted_drops(
                self.drops_total,
                full_queues(self.sessions, self.capacity, exclude).len(),
            ),
            ..self
        }
    }
}

/// A broadcast reaches every other live session with room, leaves out the
/// excluded peer, and removes no session.
pub proof fn broadcast_reaches_the_others(
    s: RegistryState,
    exclude: Option<Seq<u8>>,
    priority: u8,
    frame: Seq<u8>,
    peer: Seq<u8>,
)
    ensures
        ({
            let t = s.broadcasted(exclude, priority, frame);
            &&& t.sessions.dom() =~= s.sessions.dom()
            &&& s.serves(peer) && exclude != Some(peer) && takes(s.sessions[peer], s.capacity)
                ==> t.sessions[peer].queue == s.sessions[peer].queue.push((priority, frame))
            &&& s.sessions.contains_key(peer) && exclude == Some(peer) ==> t.sessions[peer]
                == s.sessions[peer]
        }),
{
}

/// What was sent to a live session with room is what is drained next, behind what
/// waited before.
pub proof fn sent_frame_is_drained(
    s: RegistryState,
    peer: Seq<u8>,
    priority: u8,
    frame: Seq<u8>,
    now: u64,
)
    requires
        s.serves(peer),
        takes(s.sessions[peer], s.capacity),
    ensures
        s.sent_to(peer, priority, frame, now).serves(peer),
        s.sent_to(peer, priority, frame, now).sessions[peer].queue == s.sessions[peer].queue.push(
            (priority, frame),
        ),
        s.sent_to(peer, priority, frame, now).sessions[peer].id == s.sessions[peer].id,
{
}

/// Nothing is sent to a session that has ended, and it does not keep the peer
/// from being registered anew.
pub proof fn ended_session_is_replaced(
    s: RegistryState,
    peer: Seq<u8>,
    priority: u8,
    frame: Seq<u8>,
    now: u64,
)
    requires
        s.sessions.contains_key(peer),
        s.sessions[peer].closed,
    ensures
        s.sent_to(peer, priority, frame, now) == s,
        !s.serves(peer),
        s.registered(peer, now).serves(peer),
{
}

/// Whether nothing was sent to a session for as long as to any other.
pub open spec fn least_active(m: Map<Seq<u8>, TxState>, k: Seq<u8>) -> bool {
    &&& m.contains_key(k)
    &&& forall|j: Seq<u8>| #[trigger] m.contains_key(j) ==> m[k].last_active <= m[j].last_active
}

/// Whether a list holds what a map holds, each key once.
pub open spec fn lists(all: Seq<(Seq<u8>, TxState)>, m: Map<Seq<u8>, TxState>) -> bool {
    &&& forall|i: int|
        0 <= i < all.len() ==> m.contains_key((#[trigger] all[i]).0) && m[all[i].0] == all[i].1
    &&& forall|k: Seq<u8>| #[trigger]
        m.contains_key(k) ==> exists|i: int| 0 <= i < all.len() && (#[trigger] all[i]).0 == k
    &&& forall|i: int, j: int|
        0 <= i < j < all.len() ==> (#[trigger] all[i]).0 != (#[trigger] all[j]).0
}

/// The number of frames in the queues of a list.
pub open spec fn queued(all: Seq<(Seq<u8>, TxState)>) -> nat
    decreases all.len(),
{
    if all.len() == 0 {
        0
    } else {
        queued(all.drop_last()) + all.last().1.queue.len()
    }
}

/// The frames that were taken from a queue.
pub struct Drained {
    pub frames: Vec<(u8, Vec<u8>)>,
    /// Whether the registration is gone.
    pub disconnected: bool,
}

/// Whether this side keeps a new connection: of the two nodes the one with the
/// smaller identifier keeps the connections that it made, the other one those
/// that it accepted.
pub open spec fn keeps_direction(local: Seq<u8>, peer: Seq<u8>, outbound: bool) -> bool {
    lex_less(local, peer) == outbound
}

/// Both ends of a connection between different nodes agree on whether it is kept.
pub proof fn ends_agree_on_connection(dialer: Seq<u8>, acceptor: Seq<u8>)
    requires
        dialer != acceptor,
    ensures
        keeps_direction(dialer, acceptor, true) == keeps_direction(acceptor, dialer, false),
{
    lemma_lex_less_total(dialer, acceptor);
}

/// When two nodes connect to each other at once, exactly one of the two
/// connections is kept.
pub proof fn one_of_two_connections_survives(a: Seq<u8>, b: Seq<u8>)
    requires
        a != b,
    ensures
        keeps_direction(a, b, true) != keeps_direction(b, a, true),
{
    lemma_lex_less_total(a, b);
}

impl View for SessionTxRegistry {
    type V = RegistryState;

    closed spec fn view(&self) -> RegistryState {
        RegistryState {
            sessions: states(self.sessions@),
            capacity: self.capacity,
            drops_total: self.drops_total,
            next_id: self.next_id,
        }
    }
}

impl Default for SessionTxRegistry {
    fn default() -> (r: SessionTxRegistry)
        ensures
            r@ == (RegistryState {
                sessions: Map::empty(),
                capacity: DEFAULT_TX_QUEUE_DEPTH,
                drops_total: 0,
                next_id: 0,
            }),
    {
        SessionTxRegistry::with_capacity(DEFAULT_TX_QUEUE_DEPTH)
    }
}

impl SessionTxRegistry {
    /// A registry without sessions, whose queues have the default depth.
    pub fn new() -> (r: SessionTxRegistry)
        ensures
            r@ == (RegistryState {
                sessions: Map::empty(),
                capacity: DEFAULT_TX_QUEUE_DEPTH,
                drops_total: 0,
                next_id: 0,
            }),
    {
        SessionTxRegistry::with_capacity(DEFAULT_TX_QUEUE_DEPTH)
    }

    /// A registry without sessions, whose queues hold `capacity` frames.
    pub fn with_capacity(capacity: usize) -> (r: SessionTxRegistry)
        ensures
            r@ == (RegistryState {
                sessions: Map::empty(),
                capacity,
                drops_total: 0,
                next_id: 0,
            }),
    {
        SessionTxRegistry::with_capacity_and_drop_counter(capacity, 0)
    }

    /// A registry without sessions that goes on counting dropped frames.
    pub fn with_capacity_and_drop_counter(capacity: usize, drops_total: u64) -> (r:
        SessionTxRegistry)
        ensures
            r@ == (RegistryState { sessions: Map::empty(), capacity, drops_total, next_id: 0 }),
    {
        let sessions: Table<SessionTx> = Table::new();
        assert(states(sessions@) =~= Map::<Seq<u8>, TxState>::empty());
        SessionTxRegistry { sessions, capacity, drops_total, next_id: 0 }
    }

    /// How many frames were dropped because a queue was full.
    pub fn drops_total(&self) -> (n: u64)
        ensures
            n == self@.drops_total,
    {
        self.drops_total
    }

    /// Removes the queues whose sessions have ended.
    fn prune_closed(&mut self) -> (removed: usize)
        ensures
            final(self)@ == (RegistryState { sessions: live(old(self)@.sessions), ..old(self)@ }),
            old(self)@.sessions.dom().finite(),
            final(self)@.sessions.dom().finite(),
            removed == old(self)@.sessions.len() - final(self)@.sessions.len(),
    {
        let ghost whole = self.sessions@;
        let n: usize = self.sessions.len();
        let mut i: usize = 0;
        let mut removed: usize = 0;
        let ghost rows = self.sessions.rows();
        proof {
            lemma_states(whole);
        }
        while i < self.sessions.len()
            invariant
                i <= self.sessions.rows().len(),
                removed + self.sessions.rows().len() == n,
                n == whole.len(),
                whole.dom().finite(),
                keys_unique(self.sessions.rows()),
                self.capacity == old(self).capacity,
                self.drops_total == old(self).drops_total,
                self.next_id == old(self).next_id,
                forall|j: int| 0 <= j < i ==> !(#[trigger] self.sessions.rows()[j]).1.closed,
                forall|k: Seq<u8>| #[trigger]
                    self.sessions@.contains_key(k) ==> whole.contains_key(k) && whole[k]
                        == self.sessions@[k],
                forall|k: Seq<u8>| #[trigger]
                    whole.contains_key(k) && !whole[k].closed ==> self.sessions@.contains_key(k),
            decreases self.sessions.rows().len() - i,
        {
            if self.sessions.value_at(i).closed {
                let ghost before = self.sessions.rows();
                let _ = self.sessions.remove_at(i);
                proof {
                    use_type_invariant(&self.sessions);
                }
                removed = removed + 1;
                assert forall|j: int| 0 <= j < i implies !(
                #[trigger] self.sessions.rows()[j]).1.closed by {
                    assert(self.sessions.rows()[j] == before[j]);
                }
            } else {
                i = i + 1;
            }
        }
        let left: usize = self.sessions.len();
        proof {
            let after = self.sessions@;
            assert forall|k: Seq<u8>| after.contains_key(k) implies !after[k].closed by {
                let r = self.sessions.rows();
                lemma_row(r, row_of(r, k));
            }
            assert(states(after) =~= live(states(whole)));
            lemma_states(after);
        }
        removed
    }

    /// Removes the queues whose sessions have ended, and says how many there were.
    pub fn prune_closed_external(&mut self) -> (removed: usize)
        ensures
            final(self)@ == (RegistryState { sessions: live(old(self)@.sessions), ..old(self)@ }),
            removed == old(self)@.sessions.len() - final(self)@.sessions.len(),
    {
        self.prune_closed()
    }

    fn add(&mut self, peer: &[u8; 32], now: u64) -> (id: u64)
        ensures
            id == old(self)@.next_id,
            final(self)@ == (RegistryState {
                sessions: old(self)@.sessions.insert(
                    peer@,
                    TxState {
                        id: old(self)@.next_id,
                        queue: Seq::empty(),
                        closed: false,
                        last_active: now,
                    },
                ),
                next_id: bumped(old(self)@.next_id),
                ..old(self)@
            }),
    {
        let id: u64 = self.next_id;
        let ghost before = self.sessions@;
        let tx: SessionTx = SessionTx { id, queue: Vec::new(), closed: false, last_active: now };
        assert(tx@.queue =~= Seq::<(u8, Seq<u8>)>::empty());
        let _ = self.sessions.insert(peer.as_slice(), tx);
        self.next_id = self.next_id.saturating_add(1);
        assert(states(self.sessions@) =~= states(before).insert(peer@, tx@));
        id
    }

    /// Registers a session with a peer at `now`, in place of an earlier one, and
    /// gives the number of the registration.
    pub fn register(&mut self, peer: &[u8; 32], now: u64) -> (id: u64)
        ensures
            id == old(self)@.next_id,
            final(self)@ == old(self)@.registered(peer@, now),
    {
        let _ = self.prune_closed();
        self.add(peer, now)
    }

    /// Registers a session with a peer unless there is a live one.
    pub fn try_register_unique(&mut self, peer: &[u8; 32], now: u64) -> (r: Option<u64>)
        ensures
            r is Some == !old(self)@.serves(peer@),
            r matches Some(id) ==> id == old(self)@.next_id && final(self)@ == old(
                self,
            )@.registered(peer@, now),
            r is None ==> final(self)@ == (RegistryState {
                sessions: live(old(self)@.sessions),
                ..old(self)@
            }),
    {
        let _ = self.prune_closed();
        if self.sessions.contains(peer.as_slice()) {
            assert(states(self.sessions@).contains_key(peer@));
            return None;
        }
        assert(!states(self.sessions@).contains_key(peer@));
        Some(self.add(peer, now))
    }

    /// Registers a session with a peer when its direction is the one that is kept
    /// between the two nodes and there is no live session.
    pub fn try_register_directional(
        &mut self,
        peer: &[u8; 32],
        local_node_id: &[u8; 32],
        new_is_outbound: bool,
        now: u64,
    ) -> (r: Option<u64>)
        ensures
            r is Some == (keeps_direction(local_node_id@, peer@, new_is_outbound) && !old(
                self,
            )@.serves(peer@)),
            r matches Some(id) ==> id == old(self)@.next_id && final(self)@ == old(
                self,
            )@.registered(peer@, now),
            r is None ==> final(self)@ == (RegistryState {
                sessions: live(old(self)@.sessions),
                ..old(self)@
            }),
    {
        let _ = self.prune_closed();
        let we_keep_outbound: bool = bytes_less(local_node_id.as_slice(), peer.as_slice());
        if we_keep_outbound != new_is_outbound {
            return None;
        }
        if self.sessions.contains(peer.as_slice()) {
            assert(states(self.sessions@).contains_key(peer@));
            return None;
        }
        assert(!states(self.sessions@).contains_key(peer@));
        Some(self.add(peer, now))
    }

    /// Removes the queue of a peer, and the queues whose sessions have ended.
    pub fn unregister(&mut self, peer: &[u8; 32])
        ensures
            final(self)@ == (RegistryState {
                sessions: live(old(self)@.sessions).remove(peer@),
                ..old(self)@
            }),
    {
        let _ = self.prune_closed();
        let ghost before = self.sessions@;
        let _ = self.sessions.remove(peer.as_slice());
        assert(states(self.sessions@) =~= states(before).remove(peer@));
    }

    /// The queue of a live session with a peer.
    pub fn get_sender(&self, peer: &[u8; 32]) -> (r: Option<&SessionTx>)
        ensures
            r is Some == self@.serves(peer@),
            r matches Some(t) ==> t@ == self@.sessions[peer@],
    {
        match self.sessions.get(peer.as_slice()) {
            None => {
                assert(!states(self.sessions@).contains_key(peer@));
                None
            },
            Some(t) => {
                assert(states(self.sessions@).contains_key(peer@));
                assert(states(self.sessions@)[peer@] == t@);
                if t.closed {
                    None
                } else {
                    Some(t)
                }
            },
        }
    }

    /// Whether there is a live session with a peer.
    pub fn has_session(&self, peer: &[u8; 32]) -> (b: bool)
        ensures
            b == self@.serves(peer@),
    {
        self.get_sender(peer).is_some()
    }

    /// The peers with live sessions, each once.
    pub fn peer_ids(&self) -> (v: Vec<Vec<u8>>)
        ensures
            forall|i: int| 0 <= i < v@.len() ==> self@.serves((#[trigger] v@[i])@),
            forall|k: Seq<u8>| #[trigger]
                self@.serves(k) ==> exists|i: int| 0 <= i < v@.len() && (#[trigger] v@[i])@ == k,
            forall|i: int, j: int|
                0 <= i < j < v@.len() ==> (#[trigger] v@[i])@ != (#[trigger] v@[j])@,
    {
        let n: usize = self.sessions.len();
        let mut v: Vec<Vec<u8>> = Vec::new();
        let mut i: usize = 0;
        let ghost rows = self.sessions.rows();
        while i < n
            invariant
                0 <= i <= n,
                n == rows.len(),
                rows == self.sessions.rows(),
                keys_unique(rows),
                forall|j: int| 0 <= j < v@.len() ==> self@.serves((#[trigger] v@[j])@),
                forall|j: int|
                    0 <= j < v@.len() ==> exists|m: int|
                        0 <= m < i && #[trigger] rows[m].0 == (#[trigger] v@[j])@,
                forall|m: int|
                    0 <= m < i && !(#[trigger] rows[m]).1.closed ==> exists|j: int|
                        0 <= j < v@.len() && (#[trigger] v@[j])@ == rows[m].0,
                forall|j: int, k: int|
                    0 <= j < k < v@.len() ==> (#[trigger] v@[j])@ != (#[trigger] v@[k])@,
            decreases n - i,
        {
            let ghost before = v@;
            proof {
                lemma_row(rows, i as int);
                assert(states(self.sessions@).contains_key(rows[i as int].0));
            }
            if !self.sessions.value_at(i).closed {
                let key: Vec<u8> = copy_bytes(self.sessions.key_at(i).as_slice());
                v.push(key);
                proof {
                    assert(self@.serves(key@));
                    assert forall|j: int| 0 <= j < before.len() implies (#[trigger] before[j])@
                        != key@ by {
                        let m = choose|m: int| 0 <= m < i && rows[m].0 == before[j]@;
                        assert(rows[m].0 != rows[i as int].0);
                    }
                    assert forall|j: int| 0 <= j < v@.len() implies exists|m: int|
                        0 <= m < i + 1 && #[trigger] rows[m].0 == (#[trigger] v@[j])@ by {
                        if j < before.len() {
                            assert(v@[j] == before[j]);
                            let m = choose|m: int| 0 <= m < i && rows[m].0 == before[j]@;
                            assert(rows[m].0 == v@[j]@);
                        } else {
                            assert(rows[i as int].0 == v@[j]@);
                        }
                    }
                    assert forall|m: int| 0 <= m < i + 1 && !(
                    #[trigger] rows[m]).1.closed implies exists|j: int|
                        0 <= j < v@.len() && (#[trigger] v@[j])@ == rows[m].0 by {
                        if m < i {
                            let j = choose|j: int|
                                0 <= j < before.len() && (#[trigger] before[j])@ == rows[m].0;
                            assert(v@[j]@ == rows[m].0);
                        } else {
                            assert(v@[before.len() as int]@ == rows[m].0);
                        }
                    }
                }
            }
            i = i + 1;
        }
        proof {
            assert forall|k: Seq<u8>| #[trigger] self@.serves(k) implies exists|j: int|
                0 <= j < v@.len() && (#[trigger] v@[j])@ == k by {
                let m = row_of(rows, k);
                assert(self.sessions@.contains_key(k));
                lemma_row(rows, m);
                assert(rows[m].0 == k);
            }
        }
        v
    }

    /// The peers with live sessions, each once.
    pub fn active_node_ids(&self) -> (v: Vec<Vec<u8>>)
        ensures
            forall|i: int| 0 <= i < v@.len() ==> self@.serves((#[trigger] v@[i])@),
            forall|k: Seq<u8>| #[trigger]
                self@.serves(k) ==> exists|i: int| 0 <= i < v@.len() && (#[trigger] v@[i])@ == k,
            forall|i: int, j: int|
                0 <= i < j < v@.len() ==> (#[trigger] v@[i])@ != (#[trigger] v@[j])@,
    {
        self.peer_ids()
    }

    /// Offers a frame to the queue of a peer at `now`, and says whether it was
    /// taken. A frame for a full queue is dropped and counted.
    pub fn send_to(&mut self, peer: &[u8; 32], priority: u8, bytes: Vec<u8>, now: u64) -> (sent: bool)
        ensures
            final(self)@ == old(self)@.sent_to(peer@, priority, bytes@, now),
            sent == (old(self)@.serves(peer@) && takes(
                old(self)@.sessions[peer@],
                old(self)@.capacity,
            )),
    {
        let ghost before = self.sessions@;
        proof {
            lemma_states_keys(before, peer@);
        }
        match self.sessions.get(peer.as_slice()) {
            None => {
                return false;
            },
            Some(t) => {
                if t.closed {
                    return false;
                }
                if t.queue.len() >= self.capacity {
                    self.drops_total = self.drops_total.wrapping_add(1);
                    return false;
                }
            },
        }
        match self.sessions.remove(peer.as_slice()) {
            None => {
                assert(false);
                false
            },
            Some(mut t) => {
                let ghost was = t@;
                let ghost frame = bytes@;
                t.queue.push((priority, bytes));
                t.last_active = now;
                assert(t@.queue =~= was.queue.push((priority, frame)));
                let _ = self.sessions.insert(peer.as_slice(), t);
                assert(states(self.sessions@) =~= states(before).insert(peer@, t@));
                true
            },
        }
    }

    /// Offers a frame that is also kept elsewhere to the queue of a peer.
    pub fn send_to_arc(&mut self, peer: &[u8; 32], priority: u8, frame: &[u8], now: u64) -> (sent:
        bool)
        ensures
            final(self)@ == old(self)@.sent_to(peer@, priority, frame@, now),
            sent == (old(self)@.serves(peer@) && takes(
                old(self)@.sessions[peer@],
                old(self)@.capacity,
            )),
    {
        self.send_to(peer, priority, copy_bytes(frame), now)
    }

    /// Offers a frame to every queue but that of one peer. Frames for full queues
    /// are dropped and counted.
    fn broadcast(&mut self, exclude: Option<&[u8; 32]>, priority: u8, bytes: &[u8])
        ensures
            final(self)@ == old(self)@.broadcasted(
                match exclude {
                    Some(p) => Some(p@),
                    None => None,
                },
                priority,
                bytes@,
            ),
    {
        let ghost skip = match exclude {
            Some(p) => Some(p@),
            None => None::<Seq<u8>>,
        };
        let ghost whole = states(self.sessions@);
        let ghost mut done = Map::<Seq<u8>, TxState>::empty();
        let capacity: usize = self.capacity;
        let mut drops: u64 = self.drops_total;
        let mut rest: Table<SessionTx> = Table::new();
        std::mem::swap(&mut rest, &mut self.sessions);
        let mut out: Table<SessionTx> = Table::new();
        let mut left: usize = rest.len();
        proof {
            assert(states(out@) =~= after_broadcast(done, capacity, skip, priority, bytes@));
            assert(full_queues(done, capacity, skip) =~= Set::<Seq<u8>>::empty());
        }
        while left > 0
            invariant
                left == rest.rows().len(),
                keys_unique(rest.rows()),
                capacity == old(self)@.capacity,
                whole == old(self)@.sessions,
                skip == (match exclude {
                    Some(p) => Some(p@),
                    None => None::<Seq<u8>>,
                }),
                self.capacity == capacity,
                self.next_id == old(self)@.next_id,
                forall|k: Seq<u8>| #[trigger]
                    whole.contains_key(k) <==> done.contains_key(k) || rest@.contains_key(k),
                forall|k: Seq<u8>| #[trigger]
                    done.contains_key(k) ==> !rest@.contains_key(k) && done[k] == whole[k],
                forall|k: Seq<u8>| #[trigger] rest@.contains_key(k) ==> rest@[k]@ == whole[k],
                states(out@) == after_broadcast(done, capacity, skip, priority, bytes@),
                done.dom().finite(),
                full_queues(done, capacity, skip).finite(),
                drops == counted_drops(
                    old(self)@.drops_total,
                    full_queues(done, capacity, skip).len(),
                ),
            decreases left,
        {
            let ghost rows = rest.rows();
            let key: Vec<u8> = copy_bytes(rest.key_at(0).as_slice());
            let mut t: SessionTx = rest.remove_at(0);
            left = rest.len();
            let ghost was = t@;
            let ghost before_out = out@;
            let ghost before_done = done;
            proof {
                lemma_row(rows, 0);
                assert(!done.contains_key(key@));
                assert(whole.contains_key(key@));
                assert(whole[key@] == was);
                assert(!out@.contains_key(key@)) by {
                    lemma_states_keys(out@, key@);
                }
            }
            let skipped: bool = match exclude {
                Some(p) => same_bytes(key.as_slice(), p.as_slice()),
                None => false,
            };
            assert(skipped == (skip == Some(key@)));
            if !skipped && !t.closed {
                if t.queue.len() >= capacity {
                    drops = drops.wrapping_add(1);
                } else {
                    t.queue.push((priority, copy_bytes(bytes)));
                    assert(t@.queue =~= was.queue.push((priority, bytes@)));
                }
            }
            let _ = out.insert(key.as_slice(), t);
            proof {
                done = done.insert(key@, was);
                assert(states(out@) =~= states(before_out).insert(key@, t@));
                assert(t@ == if skip == Some(key@) {
                    was
                } else {
                    offered(was, capacity, priority, bytes@)
                });
                assert(after_broadcast(done, capacity, skip, priority, bytes@) =~= after_broadcast(
                    before_done,
                    capacity,
                    skip,
                    priority,
                    bytes@,
                ).insert(key@, t@));
                let f = full_queues(before_done, capacity, skip);
                if skip != Some(key@) && !was.closed && was.queue.len() >= capacity {
                    assert(full_queues(done, capacity, skip) =~= f.insert(key@));
                } else {
                    assert(full_queues(done, capacity, skip) =~= f);
                }
            }
        }
        self.sessions = out;
        self.drops_total = drops;
        proof {
            assert(rest@ =~= Map::<Seq<u8>, SessionTx>::empty()) by {
                lemma_table_len(rest.rows());
            }
            assert(done =~= whole);
        }
    }

    /// Offers a frame to every queue.
    pub fn send_to_all(&mut self, bytes: &[u8])
        ensures
            final(self)@ == old(self)@.broadcasted(None, INTERACTIVE, bytes@),
    {
        self.broadcast(None, INTERACTIVE, bytes)
    }

    /// Offers a frame with a priority to every queue.
    pub fn send_to_all_with_priority(&mut self, priority: u8, bytes: &[u8])
        ensures
            final(self)@ == old(self)@.broadcasted(None, priority, bytes@),
    {
        self.broadcast(None, priority, bytes)
    }

    /// Offers a frame to every queue but that of one peer.
    pub fn send_to_all_except(&mut self, exclude_peer: &[u8; 32], bytes: &[u8])
        ensures
            final(self)@ == old(self)@.broadcasted(Some(exclude_peer@), INTERACTIVE, bytes@),
    {
        self.broadcast(Some(exclude_peer), INTERACTIVE, bytes)
    }

    /// Offers a frame with a priority to every queue but that of one peer.
    pub fn send_to_all_except_with_priority(
        &mut self,
        exclude_peer: &[u8; 32],
        priority: u8,
        bytes: &[u8],
    )
        ensures
            final(self)@ == old(self)@.broadcasted(Some(exclude_peer@), priority, bytes@),
    {
        self.broadcast(Some(exclude_peer), priority, bytes)
    }

    /// Takes all frames that wait for a peer, and says whether the registration
    /// with the given number is gone.
    pub fn drain(&mut self, peer: &[u8; 32], id: u64) -> (r: Drained)
        ensures
            r.disconnected == !(old(self)@.sessions.contains_key(peer@) && old(
                self,
            )@.sessions[peer@].id == id),
            r.disconnected ==> r.frames@.len() == 0 && final(self)@ == old(self)@,
            !r.disconnected ==> {
                &&& Seq::new(r.frames@.len(), |i: int| (r.frames@[i].0, r.frames@[i].1@)) == old(
                    self,
                )@.sessions[peer@].queue
                &&& final(self)@ == (RegistryState {
                    sessions: old(self)@.sessions.insert(
                        peer@,
                        TxState { queue: Seq::empty(), ..old(self)@.sessions[peer@] },
                    ),
                    ..old(self)@
                })
            },
    {
        let ghost before = self.sessions@;
        proof {
            lemma_states_keys(before, peer@);
        }
        let ours: bool = match self.sessions.get(peer.as_slice()) {
            None => false,
            Some(t) => t.id == id,
        };
        if !ours {
            return Drained { frames: Vec::new(), disconnected: true };
        }
        match self.sessions.remove(peer.as_slice()) {
            None => {
                assert(false);
                Drained { frames: Vec::new(), disconnected: true }
            },
            Some(mut t) => {
                let mut frames: Vec<(u8, Vec<u8>)> = Vec::new();
                std::mem::swap(&mut frames, &mut t.queue);
                assert(t@.queue =~= Seq::<(u8, Seq<u8>)>::empty());
                let _ = self.sessions.insert(peer.as_slice(), t);
                assert(states(self.sessions@) =~= states(before).insert(peer@, t@));
                Drained { frames, disconnected: false }
            },
        }
    }

    /// Closes the queue of a peer when the registration with the given number
    /// ends. What waits in it is lost.
    pub fn close(&mut self, peer: &[u8; 32], id: u64)
        ensures
            final(self)@ == if old(self)@.sessions.contains_key(peer@) && old(
                self,
            )@.sessions[peer@].id == id {
                RegistryState {
                    sessions: old(self)@.sessions.insert(
                        peer@,
                        TxState { queue: Seq::empty(), closed: true, ..old(self)@.sessions[peer@] },
                    ),
                    ..old(self)@
                }
            } else {
                old(self)@
            },
    {
        let ghost before = self.sessions@;
        proof {
            lemma_states_keys(before, peer@);
        }
        let ours: bool = match self.sessions.get(peer.as_slice()) {
            None => false,
            Some(t) => t.id == id,
        };
        if !ours {
            return;
        }
        match self.sessions.remove(peer.as_slice()) {
            None => {
                assert(false);
            },
            Some(mut t) => {
                t.queue = Vec::new();
                t.closed = true;
                assert(t@.queue =~= Seq::<(u8, Seq<u8>)>::empty());
                let _ = self.sessions.insert(peer.as_slice(), t);
                assert(states(self.sessions@) =~= states(before).insert(peer@, t@));
            },
        }
    }

    /// The queues in their order.
    pub closed spec fn queues(self) -> Seq<(Seq<u8>, TxState)> {
        Seq::new(
            self.sessions.rows().len(),
            |i: int| (self.sessions.rows()[i].0, self.sessions.rows()[i].1@),
        )
    }

    /// The number of frames that wait in all queues together, or the largest
    /// countable number.
    pub fn total_queued(&self) -> (n: usize)
        ensures
            lists(self.queues(), self@.sessions),
            n == if queued(self.queues()) > usize::MAX {
                usize::MAX as nat
            } else {
                queued(self.queues())
            },
    {
        let count: usize = self.sessions.len();
        let ghost all = self.queues();
        let ghost rows = self.sessions.rows();
        proof {
            assert(lists(all, self@.sessions)) by {
                assert forall|i: int| 0 <= i < all.len() implies self@.sessions.contains_key(
                    (#[trigger] all[i]).0,
                ) && self@.sessions[all[i].0] == all[i].1 by {
                    lemma_row(rows, i);
                    lemma_states_keys(self.sessions@, all[i].0);
                }
                assert forall|k: Seq<u8>| #[trigger]
                    self@.sessions.contains_key(k) implies exists|i: int|
                    0 <= i < all.len() && (#[trigger] all[i]).0 == k by {
                    lemma_states_keys(self.sessions@, k);
                    let m = row_of(rows, k);
                    lemma_row(rows, m);
                    assert(all[m].0 == k);
                }
                assert forall|i: int, j: int| 0 <= i < j < all.len() implies (
                #[trigger] all[i]).0 != (#[trigger] all[j]).0 by {
                    assert(rows[i].0 != rows[j].0);
                }
            }
            assert(all.take(0) =~= Seq::<(Seq<u8>, TxState)>::empty());
        }
        let mut total: usize = 0;
        let mut i: usize = 0;
        while i < count
            invariant
                0 <= i <= count,
                count == rows.len(),
                rows == self.sessions.rows(),
                all == self.queues(),
                total == if queued(all.take(i as int)) > usize::MAX {
                    usize::MAX as nat
                } else {
                    queued(all.take(i as int))
                },
            decreases count - i,
        {
            proof {
                assert(all.take(i + 1).drop_last() =~= all.take(i as int));
                assert(all.take(i + 1).last() == all[i as int]);
            }
            let len: usize = self.sessions.value_at(i).queue.len();
            total = total.saturating_add(len);
            i = i + 1;
        }
        assert(all.take(count as int) =~= all);
        total
    }

    /// Removes the `n` sessions to which nothing was sent for longest, and those
    /// that have ended, and says how many of the former there were.
    pub fn evict_lru(&mut self, n: usize) -> (evicted: usize)
        ensures
            ({
                let before = live(old(self)@.sessions);
                let after = final(self)@.sessions;
                &&& final(self)@ == (RegistryState { sessions: after, ..old(self)@ })
                &&& before.dom().finite()
                &&& evicted == if n < before.len() {
                    n as nat
                } else {
                    before.len()
                }
                &&& after.len() == before.len() - evicted
                &&& forall|k: Seq<u8>| #[trigger]
                    after.contains_key(k) ==> before.contains_key(k) && after[k] == before[k]
                &&& forall|gone: Seq<u8>, kept: Seq<u8>|
                    #![trigger before.contains_key(gone), after.contains_key(kept)]
                    before.contains_key(gone) && !after.contains_key(gone) && after.contains_key(
                        kept,
                    ) ==> before[gone].last_active <= before[kept].last_active
            }),
    {
        let _ = self.prune_closed();
        let ghost before = self@.sessions;
        let mut evicted: usize = 0;
        let mut count: usize = self.len();
        while evicted < n && count > 0
            invariant
                evicted <= n,
                evicted + count == before.len(),
                before.dom().finite(),
                count == self@.sessions.len(),
                self@.sessions.dom().finite(),
                before == live(old(self)@.sessions),
                self@ == (RegistryState { sessions: self@.sessions, ..old(self)@ }),
                forall|k: Seq<u8>| #[trigger]
                    self@.sessions.contains_key(k) ==> before.contains_key(k) && self@.sessions[k]
                        == before[k],
                forall|gone: Seq<u8>, kept: Seq<u8>|
                    #![trigger before.contains_key(gone), self@.sessions.contains_key(kept)]
                    before.contains_key(gone) && !self@.sessions.contains_key(gone)
                        && self@.sessions.contains_key(kept) ==> before[gone].last_active
                        <= before[kept].last_active,
            decreases count,
        {
            let ghost now = self@.sessions;
            self.remove_least_active();
            proof {
                let k = choose|k: Seq<u8>| #[trigger]
                    least_active(now, k) && self@.sessions == now.remove(k);
                assert forall|gone: Seq<u8>, kept: Seq<u8>|
                    #![trigger before.contains_key(gone), self@.sessions.contains_key(kept)]
                    before.contains_key(gone) && !self@.sessions.contains_key(gone)
                        && self@.sessions.contains_key(kept) implies before[gone].last_active
                    <= before[kept].last_active by {
                    assert(now.contains_key(kept));
                    if now.contains_key(gone) {
                        assert(gone == k);
                    }
                }
            }
            count = self.len();
            evicted = evicted + 1;
        }
        evicted
    }

    fn remove_least_active(&mut self)
        requires
            old(self)@.sessions.len() > 0,
            old(self)@.sessions.dom().finite(),
        ensures
            final(self)@ == (RegistryState { sessions: final(self)@.sessions, ..old(self)@ }),
            exists|k: Seq<u8>| #[trigger]
                least_active(old(self)@.sessions, k) && final(self)@.sessions == old(
                    self,
                )@.sessions.remove(k),
            final(self)@.sessions.len() == old(self)@.sessions.len() - 1,
    {
        let n: usize = self.len();
        let count: usize = self.sessions.len();
        proof {
            lemma_states(self.sessions@);
        }
        let mut best: usize = 0;
        let mut i: usize = 1;
        while i < count
            invariant
                0 <= best < count,
                1 <= i <= count,
                count == self.sessions.rows().len(),
                *self == *old(self),
                forall|j: int|
                    0 <= j < i ==> self.sessions.rows()[best as int].1.last_active <= (
                    #[trigger] self.sessions.rows()[j]).1.last_active,
            decreases count - i,
        {
            if self.sessions.value_at(i).last_active < self.sessions.value_at(best).last_active {
                best = i;
            }
            i = i + 1;
        }
        let ghost rows = self.sessions.rows();
        let ghost m = self.sessions@;
        let ghost k = rows[best as int].0;
        let _ = self.sessions.remove_at(best);
        proof {
            use_type_invariant(&self.sessions);
            lemma_row(rows, best as int);
            lemma_states(m);
            lemma_states(self.sessions@);
            assert(states(self.sessions@) =~= states(m).remove(k));
            assert forall|j: Seq<u8>| #[trigger]
                states(m).contains_key(j) implies states(m)[k].last_active
                <= states(m)[j].last_active by {
                lemma_row(rows, row_of(rows, j));
            }
            assert(least_active(states(m), k));
        }
    }

    /// The number of queues, counting those whose sessions have ended.
    pub fn len(&self) -> (n: usize)
        ensures
            n == self@.sessions.len(),
            self@.sessions.dom().finite(),
    {
        let n: usize = self.sessions.len();
        proof {
            lemma_states(self.sessions@);
        }
        n
    }

    /// Whether there is no queue.
    pub fn is_empty(&self) -> (b: bool)
        ensures
            b == (self@.sessions.len() == 0),
    {
        self.len() == 0
    }

    /// The memory that full queues would take: the number of queues times their
    /// depth times the size of a frame, or the largest countable number.
    pub fn estimated_memory(&self) -> (n: usize)
        ensures
            n == {
                let full = self@.sessions.len() * self@.capacity * AVG_FRAME_BYTES;
                if full > usize::MAX {
                    usize::MAX as int
                } else {
                    full as int
                }
            },
    {
        let sessions: usize = self.len();
        let slots: usize = saturating_product(sessions, self.capacity);
        let n: usize = saturating_product(slots, AVG_FRAME_BYTES);
        proof {
            let exact = sessions * self.capacity;
            if exact > usize::MAX {
                assert(exact * AVG_FRAME_BYTES > usize::MAX) by (nonlinear_arith)
                    requires
                        exact > usize::MAX,
                        AVG_FRAME_BYTES == 16384,
                ;
                assert(usize::MAX * AVG_FRAME_BYTES > usize::MAX) by (nonlinear_arith)
                    requires
                        AVG_FRAME_BYTES == 16384,
                        usize::MAX > 0,
                ;
            }
        }
        n
    }
}

fn saturating_product(a: usize, b: usize) -> (n: usize)
    ensures
        n == if a * b > usize::MAX {
            usize::MAX as int
        } else {
            a * b
        },
{
    let wide: u128 = mul_wide(a, b);
    if wide > usize::MAX as u128 {
        usize::MAX
    } else {
        wide as usize
    }
}

fn mul_wide(a: usize, b: usize) -> (n: u128)
    ensures
        n == a * b,
{
    proof {
        assert(a * b <= u64::MAX * u64::MAX) by (nonlinear_arith)
            requires
                0 <= a <= u64::MAX,
                0 <= b <= u64::MAX,
        ;
    }
    a as u128 * b as u128
}

proof fn lemma_states(m: Map<Seq<u8>, SessionTx>)
    ensures
        m.dom().finite() ==> states(m).dom().finite() && states(m).len() == m.len(),
{
    assert(states(m).dom() =~= m.dom());
}

proof fn lemma_states_keys(m: Map<Seq<u8>, SessionTx>, k: Seq<u8>)
    ensures
        states(m).contains_key(k) == m.contains_key(k),
        m.contains_key(k) ==> states(m)[k] == m[k]@,
{
}

/// A frame for a peer is put behind what waits for it when its session is live and there
/// is room. A full queue loses it, which is counted; an ended or unknown session takes
/// nothing. No other queue is touched.
pub proof fn a_frame_is_put_into_the_queue_of_its_peer(
    r: &mut SessionTxRegistry,
    peer: &[u8; 32],
    priority: u8,
    bytes: Vec<u8>,
    now: u64,
    sent: bool,
    other: Seq<u8>,
)
    requires
        call_ensures(SessionTxRegistry::send_to, (r, peer, priority, bytes, now), sent),
        other != peer@,
    ensures
        ({
            let a = old(r)@;
            let b = final(r)@;
            let here = a.sessions.contains_key(peer@) && !a.sessions[peer@].closed;
            &&& sent == (here && a.sessions[peer@].queue.len() < a.capacity)
            &&& sent ==> {
                &&& b.sessions[peer@].queue == a.sessions[peer@].queue.push((priority, bytes@))
                &&& b.sessions[peer@].last_active == now
                &&& b.sessions[peer@].id == a.sessions[peer@].id
                &&& !b.sessions[peer@].closed
                &&& b.drops_total == a.drops_total
            }
            &&& !sent ==> b.sessions == a.sessions
            &&& !sent && here && a.drops_total < u64::MAX ==> b.drops_total == a.drops_total + 1
            &&& !sent && !here ==> b.drops_total == a.drops_total
            &&& b.sessions.contains_key(other) == a.sessions.contains_key(other)
            &&& a.sessions.contains_key(other) ==> b.sessions[other] == a.sessions[other]
            &&& b.capacity == a.capacity
            &&& b.next_id == a.next_id
        }),
{
}

/// A frame that is kept elsewhere is sent just like one that is not.
pub proof fn shared_frames_are_sent_alike(
    r: &mut SessionTxRegistry,
    s: &mut SessionTxRegistry,
    peer: &[u8; 32],
    priority: u8,
    bytes: Vec<u8>,
    frame: &[u8],
    now: u64,
    sent: bool,
    also: bool,
)
    requires
        bytes@ == frame@,
        old(r)@ == old(s)@,
        call_ensures(SessionTxRegistry::send_to, (r, peer, priority, bytes, now), sent),
        call_ensures(SessionTxRegistry::send_to_arc, (s, peer, priority, frame, now), also),
    ensures
        sent == also,
        final(r)@ == final(s)@,
{
}

/// What a broadcast does to one queue.
proof fn lemma_broadcast(
    a: RegistryState,
    b: RegistryState,
    exclude: Option<Seq<u8>>,
    priority: u8,
    frame: Seq<u8>,
    peer: Seq<u8>,
)
    requires
        b == a.broadcasted(exclude, priority, frame),
    ensures
        b.sessions.contains_key(peer) == a.sessions.contains_key(peer),
        a.sessions.contains_key(peer) ==> {
            let q = a.sessions[peer];
            let p = b.sessions[peer];
            &&& p.id == q.id && p.closed == q.closed && p.last_active == q.last_active
            &&& exclude != Some(peer) && !q.closed && q.queue.len() < a.capacity ==> p.queue
                == q.queue.push((priority, frame))
            &&& exclude == Some(peer) || q.closed || q.queue.len() >= a.capacity ==> p.queue
                == q.queue
        },
        b.capacity == a.capacity && b.next_id == a.next_id,
{
}

/// A broadcast puts the frame into every live queue with room, answers of users in their
/// own class unless another is given, and leaves out the excluded peer. Full queues are
/// counted; when none is full, nothing is.
pub proof fn broadcasts_reach_every_live_peer(
    r: &mut SessionTxRegistry,
    p: &mut SessionTxRegistry,
    priority: u8,
    bytes: &[u8],
    peer: Seq<u8>,
)
    requires
        call_ensures(SessionTxRegistry::send_to_all, (r, bytes), ()),
        call_ensures(SessionTxRegistry::send_to_all_with_priority, (p, priority, bytes), ()),
    ensures
        old(r)@.sessions.contains_key(peer) ==> {
            let q = old(r)@.sessions[peer];
            &&& final(r)@.sessions.contains_key(peer)
            &&& !q.closed && q.queue.len() < old(r)@.capacity ==> final(r)@.sessions[peer].queue
                == q.queue.push((1u8, bytes@))
            &&& q.closed || q.queue.len() >= old(r)@.capacity ==> final(r)@.sessions[peer].queue
                == q.queue
        },
        old(p)@.sessions.contains_key(peer) ==> {
            let q = old(p)@.sessions[peer];
            &&& final(p)@.sessions.contains_key(peer)
            &&& !q.closed && q.queue.len() < old(p)@.capacity ==> final(p)@.sessions[peer].queue
                == q.queue.push((priority, bytes@))
            &&& q.closed || q.queue.len() >= old(p)@.capacity ==> final(p)@.sessions[peer].queue
                == q.queue
        },
        !old(r)@.sessions.contains_key(peer) ==> !final(r)@.sessions.contains_key(peer),
        !old(p)@.sessions.contains_key(peer) ==> !final(p)@.sessions.contains_key(peer),
        (forall|k: Seq<u8>| #[trigger]
            old(r)@.sessions.contains_key(k) ==> old(r)@.sessions[k].queue.len() < old(r)@.capacity)
            ==> final(r)@.drops_total == old(r)@.drops_total,
{
    lemma_broadcast(old(r)@, final(r)@, None, INTERACTIVE, bytes@, peer);
    lemma_broadcast(old(p)@, final(p)@, None, priority, bytes@, peer);
    if forall|k: Seq<u8>| #[trigger]
        old(r)@.sessions.contains_key(k) ==> old(r)@.sessions[k].queue.len() < old(r)@.capacity {
        assert(full_queues(old(r)@.sessions, old(r)@.capacity, None) =~= Set::empty());
    }
}

/// A broadcast that leaves out one peer reaches every other live one with room.
pub proof fn broadcasts_leave_out_one_peer(
    r: &mut SessionTxRegistry,
    p: &mut SessionTxRegistry,
    exclude: &[u8; 32],
    priority: u8,
    bytes: &[u8],
    peer: Seq<u8>,
)
    requires
        call_ensures(SessionTxRegistry::send_to_all_except, (r, exclude, bytes), ()),
        call_ensures(
            SessionTxRegistry::send_to_all_except_with_priority,
            (p, exclude, priority, bytes),
            (),
        ),
    ensures
        old(r)@.sessions.contains_key(peer) ==> {
            let q = old(r)@.sessions[peer];
            &&& final(r)@.sessions.contains_key(peer)
            &&& peer != exclude@ && !q.closed && q.queue.len() < old(r)@.capacity ==> final(r)@.sessions[peer].queue == q.queue.push((1u8, bytes@))
            &&& peer == exclude@ ==> final(r)@.sessions[peer] == q
        },
        old(p)@.sessions.contains_key(peer) ==> {
            let q = old(p)@.sessions[peer];
            &&& final(p)@.sessions.contains_key(peer)
            &&& peer != exclude@ && !q.closed && q.queue.len() < old(p)@.capacity ==> final(p)@.sessions[peer].queue == q.queue.push((priority, bytes@))
            &&& peer == exclude@ ==> final(p)@.sessions[peer] == q
        },
{
    lemma_broadcast(old(r)@, final(r)@, Some(exclude@), INTERACTIVE, bytes@, peer);
    lemma_broadcast(old(p)@, final(p)@, Some(exclude@), priority, bytes@, peer);
}

/// A lost frame is counted: a broadcast to one full queue and no other counts one.
pub proof fn every_lost_frame_is_counted(
    r: &mut SessionTxRegistry,
    bytes: &[u8],
    full: Seq<u8>,
)
    requires
        call_ensures(SessionTxRegistry::send_to_all, (r, bytes), ()),
        old(r)@.drops_total < u64::MAX,
        old(r)@.sessions.contains_key(full),
        !old(r)@.sessions[full].closed,
        old(r)@.sessions[full].queue.len() >= old(r)@.capacity,
        forall|k: Seq<u8>| #[trigger]
            old(r)@.sessions.contains_key(k) && k != full ==> old(r)@.sessions[k].closed || old(r)@.sessions[k].queue.len() < old(r)@.capacity,
    ensures
        final(r)@.drops_total == old(r)@.drops_total + 1,
{
    let lost = full_queues(old(r)@.sessions, old(r)@.capacity, None);
    assert(lost =~= Set::empty().insert(full));
}

/// A registered session is live and has an empty queue and a number of its own; other live
/// sessions keep theirs, and ended ones are gone.
pub proof fn a_registered_session_is_served(
    r: &mut SessionTxRegistry,
    peer: &[u8; 32],
    now: u64,
    id: u64,
    other: Seq<u8>,
)
    requires
        call_ensures(SessionTxRegistry::register, (r, peer, now), id),
        other != peer@,
    ensures
        ({
            let a = old(r)@;
            let b = final(r)@;
            &&& b.sessions.contains_key(peer@)
            &&& b.sessions[peer@].id == id
            &&& b.sessions[peer@].queue.len() == 0
            &&& !b.sessions[peer@].closed
            &&& b.sessions[peer@].last_active == now
            &&& id == a.next_id
            &&& a.next_id < u64::MAX ==> b.next_id == a.next_id + 1
            &&& b.sessions.contains_key(other) == (a.sessions.contains_key(other)
                && !a.sessions[other].closed)
            &&& b.sessions.contains_key(other) ==> b.sessions[other] == a.sessions[other]
            &&& b.capacity == a.capacity
            &&& b.drops_total == a.drops_total
        }),
{
}

/// A live session is not replaced where it is to be the only one, and an ended one is.
pub proof fn a_live_session_is_not_replaced(
    r: &mut SessionTxRegistry,
    peer: &[u8; 32],
    now: u64,
    got: Option<u64>,
)
    requires
        call_ensures(SessionTxRegistry::try_register_unique, (r, peer, now), got),
    ensures
        ({
            let a = old(r)@;
            let b = final(r)@;
            let here = a.sessions.contains_key(peer@) && !a.sessions[peer@].closed;
            &&& here ==> got is None && b.sessions[peer@] == a.sessions[peer@]
                && b.sessions.contains_key(peer@) && b.next_id == a.next_id
            &&& !here ==> got == Some(a.next_id) && b.sessions.contains_key(peer@)
                && b.sessions[peer@].id == a.next_id && !b.sessions[peer@].closed
                && b.sessions[peer@].queue.len() == 0
        }),
{
}

/// Of two connections that two nodes make to each other at once, both keep the same one:
/// the end that made it registers it exactly when the end that accepted it does, and of
/// the two that each made one exactly one keeps its own.
pub proof fn both_nodes_keep_the_same_connection(
    a: &mut SessionTxRegistry,
    b: &mut SessionTxRegistry,
    c: &mut SessionTxRegistry,
    first: &[u8; 32],
    second: &[u8; 32],
    now: u64,
    made: Option<u64>,
    accepted: Option<u64>,
    other_made: Option<u64>,
)
    requires
        first@ != second@,
        !old(a)@.serves(second@),
        !old(b)@.serves(first@),
        !old(c)@.serves(first@),
        call_ensures(
            SessionTxRegistry::try_register_directional,
            (a, second, first, true, now),
            made,
        ),
        call_ensures(
            SessionTxRegistry::try_register_directional,
            (b, first, second, false, now),
            accepted,
        ),
        call_ensures(
            SessionTxRegistry::try_register_directional,
            (c, first, second, true, now),
            other_made,
        ),
    ensures
        made is Some == accepted is Some,
        made is Some != other_made is Some,
        made is Some ==> final(a)@.serves(second@) && final(a)@.sessions[second@].id == made->0,
        made is None ==> !final(a)@.serves(second@),
{
    ends_agree_on_connection(first@, second@);
    one_of_two_connections_survives(first@, second@);
}

/// What was put into a queue is taken out in its order and once.
pub proof fn what_waits_is_taken_out_once(
    r: &mut SessionTxRegistry,
    peer: &[u8; 32],
    id: u64,
    got: Drained,
    s: &mut SessionTxRegistry,
    again: Drained,
    i: int,
)
    requires
        call_ensures(SessionTxRegistry::drain, (r, peer, id), got),
        *old(s) == *final(r),
        call_ensures(SessionTxRegistry::drain, (s, peer, id), again),
    ensures
        got.disconnected == !(old(r)@.sessions.contains_key(peer@) && old(r)@.sessions[peer@].id
            == id),
        again.disconnected == got.disconnected,
        again.frames@.len() == 0,
        !got.disconnected ==> {
            let q = old(r)@.sessions[peer@].queue;
            &&& got.frames@.len() == q.len()
            &&& 0 <= i < q.len() ==> got.frames@[i].0 == q[i].0 && got.frames@[i].1@ == q[i].1
            &&& final(r)@.sessions[peer@].id == id
            &&& final(r)@.sessions[peer@].closed == old(r)@.sessions[peer@].closed
        },
        got.disconnected ==> got.frames@.len() == 0 && final(r)@ == old(r)@,
{
    if !got.disconnected {
        let q = old(r)@.sessions[peer@].queue;
        let v = Seq::new(got.frames@.len(), |i: int| (got.frames@[i].0, got.frames@[i].1@));
        assert(v.len() == q.len());
        if 0 <= i < q.len() {
            assert(v[i] == q[i]);
        }
        let w = Seq::new(again.frames@.len(), |i: int| (again.frames@[i].0, again.frames@[i].1@));
        assert(w.len() == again.frames@.len());
    }
}

/// The frame that was sent is the last that is taken out.
pub proof fn a_sent_frame_is_taken_out(
    r: &mut SessionTxRegistry,
    peer: &[u8; 32],
    priority: u8,
    bytes: Vec<u8>,
    now: u64,
    s: &mut SessionTxRegistry,
    id: u64,
    got: Drained,
)
    requires
        call_ensures(SessionTxRegistry::send_to, (r, peer, priority, bytes, now), true),
        *old(s) == *final(r),
        old(r)@.sessions[peer@].id == id,
        call_ensures(SessionTxRegistry::drain, (s, peer, id), got),
    ensures
        !got.disconnected,
        got.frames@.len() == old(r)@.sessions[peer@].queue.len() + 1,
        got.frames@.last().0 == priority,
        got.frames@.last().1@ == bytes@,
{
    let v = Seq::new(got.frames@.len(), |i: int| (got.frames@[i].0, got.frames@[i].1@));
    let q = old(s)@.sessions[peer@].queue;
    assert(v.len() == q.len());
    assert(v[q.len() - 1] == q[q.len() - 1]);
}

/// A session that ended is served no more and takes no frame; only the registration that
/// ended is affected, not a later one of the same peer.
pub proof fn an_ended_session_takes_nothing(
    r: &mut SessionTxRegistry,
    peer: &[u8; 32],
    id: u64,
    s: &mut SessionTxRegistry,
    priority: u8,
    bytes: Vec<u8>,
    now: u64,
    sent: bool,
    here: bool,
)
    requires
        old(r)@.sessions.contains_key(peer@),
        call_ensures(SessionTxRegistry::close, (r, peer, id), ()),
        *old(s) == *final(r),
        call_ensures(SessionTxRegistry::has_session, (&*final(r), peer), here),
        call_ensures(SessionTxRegistry::send_to, (s, peer, priority, bytes, now), sent),
    ensures
        old(r)@.sessions[peer@].id == id ==> !here && !sent && final(r)@.sessions[peer@].queue.len() == 0,
        old(r)@.sessions[peer@].id != id ==> final(r)@ == old(r)@ && here == !old(r)@.sessions[peer@].closed,
{
}

/// A peer that was removed is served no more; the other live ones stay.
pub proof fn a_removed_peer_is_gone(
    r: &mut SessionTxRegistry,
    peer: &[u8; 32],
    here: bool,
    other: Seq<u8>,
)
    requires
        call_ensures(SessionTxRegistry::unregister, (r, peer), ()),
        call_ensures(SessionTxRegistry::has_session, (&*final(r), peer), here),
        other != peer@,
    ensures
        !here,
        final(r)@.sessions.contains_key(other) == (old(r)@.sessions.contains_key(other) && !old(r)@.sessions[other].closed),
        final(r)@.sessions.contains_key(other) ==> final(r)@.sessions[other] == old(r)@.sessions[other],
        final(r)@.next_id == old(r)@.next_id,
        final(r)@.drops_total == old(r)@.drops_total,
{
}

/// Only ended sessions are cleared away, and all of them.
pub proof fn only_ended_sessions_are_cleared_away(
    r: &mut SessionTxRegistry,
    removed: usize,
    peer: Seq<u8>,
)
    requires
        call_ensures(SessionTxRegistry::prune_closed_external, (r,), removed),
    ensures
        final(r)@.sessions.contains_key(peer) == (old(r)@.sessions.contains_key(peer) && !old(r)@.sessions[peer].closed),
        final(r)@.sessions.contains_key(peer) ==> final(r)@.sessions[peer] == old(r)@.sessions[peer],
        removed == old(r)@.sessions.len() - final(r)@.sessions.len(),
{
}

/// Only a peer that is served is listed, and the queue of a served peer is at hand.
pub proof fn only_served_peers_are_listed(
    r: &SessionTxRegistry,
    peer: &[u8; 32],
    here: bool,
    tx: Option<&SessionTx>,
    v: Vec<Vec<u8>>,
    w: Vec<Vec<u8>>,
)
    requires
        call_ensures(SessionTxRegistry::has_session, (r, peer), here),
        call_ensures(SessionTxRegistry::get_sender, (r, peer), tx),
        call_ensures(SessionTxRegistry::peer_ids, (r,), v),
        call_ensures(SessionTxRegistry::active_node_ids, (r,), w),
    ensures
        here == (r@.sessions.contains_key(peer@) && !r@.sessions[peer@].closed),
        here == tx is Some,
        tx is Some ==> tx->0@ == r@.sessions[peer@],
        !here ==> forall|i: int| 0 <= i < v@.len() ==> (#[trigger] v@[i])@ != peer@,
        !here ==> forall|i: int| 0 <= i < w@.len() ==> (#[trigger] w@[i])@ != peer@,
{
    assert(here == r@.serves(peer@));
}

/// When sessions are evicted, those go to which nothing was sent for longest, as many as
/// asked for or all.
pub proof fn the_least_active_are_evicted(
    r: &mut SessionTxRegistry,
    n: usize,
    evicted: usize,
    gone: Seq<u8>,
    kept: Seq<u8>,
)
    requires
        call_ensures(SessionTxRegistry::evict_lru, (r, n), evicted),
    ensures
        evicted <= n,
        evicted < n ==> final(r)@.sessions.len() == 0,
        final(r)@.sessions.contains_key(kept) ==> old(r)@.serves(kept) && final(r)@.sessions[kept]
            == old(r)@.sessions[kept],
        old(r)@.serves(gone) && !final(r)@.sessions.contains_key(gone) && final(r)@.sessions.contains_key(kept) ==> old(r)@.sessions[gone].last_active <= old(r)@.sessions[kept].last_active,
        n == 0 && old(r)@.serves(kept) ==> final(r)@.sessions.contains_key(kept),
        final(r)@.drops_total == old(r)@.drops_total && final(r)@.next_id == old(r)@.next_id,
{
    let before = live(old(r)@.sessions);
    let after = final(r)@.sessions;
    if old(r)@.serves(gone) {
        assert(before.contains_key(gone));
    }
    if n == 0 && old(r)@.serves(kept) && !after.contains_key(kept) {
        assert(before.contains_key(kept));
        assert(after.dom().subset_of(before.dom()));
        assert(after.dom().len() == before.dom().len());
        vstd::set_lib::lemma_subset_equality(after.dom(), before.dom());
    }
}

proof fn lemma_queued_one(all: Seq<(Seq<u8>, TxState)>, at: int)
    requires
        0 <= at < all.len(),
        forall|i: int|
            0 <= i < all.len() && i != at ==> (#[trigger] all[i]).1.queue.len() == 0,
    ensures
        queued(all) == all[at].1.queue.len(),
    decreases all.len(),
{
    let rest = all.drop_last();
    if at == all.len() - 1 {
        lemma_queued_none(rest);
    } else {
        assert(all.last() == all[all.len() - 1]);
        lemma_queued_one(rest, at);
    }
}

proof fn lemma_queued_none(all: Seq<(Seq<u8>, TxState)>)
    requires
        forall|i: int| 0 <= i < all.len() ==> (#[trigger] all[i]).1.queue.len() == 0,
    ensures
        queued(all) == 0,
    decreases all.len(),
{
    if all.len() > 0 {
        assert(all.last() == all[all.len() - 1]);
        lemma_queued_none(all.drop_last());
    }
}

proof fn lemma_queued_two(all: Seq<(Seq<u8>, TxState)>, at: int)
    requires
        0 <= at < all.len(),
    ensures
        queued(all) >= all[at].1.queue.len(),
        queued(all) == all[at].1.queue.len() + queued(all.remove(at)),
    decreases all.len(),
{
    if at == all.len() - 1 {
        assert(all.remove(at) =~= all.drop_last());
    } else {
        lemma_queued_two(all.drop_last(), at);
        assert(all.remove(at).drop_last() =~= all.drop_last().remove(at));
        assert(all.remove(at).last() == all.last());
    }
}

/// The frames of all queues are counted: no fewer than wait in any two of them, and just
/// those of one when the others are empty.
pub proof fn all_waiting_frames_are_counted(
    r: &SessionTxRegistry,
    n: usize,
    peer: Seq<u8>,
    other: Seq<u8>,
)
    requires
        call_ensures(SessionTxRegistry::total_queued, (r,), n),
        r@.sessions.contains_key(peer),
        r@.sessions.contains_key(other),
        peer != other,
    ensures
        n >= r@.sessions[peer].queue.len() + r@.sessions[other].queue.len() || n == usize::MAX,
        (forall|k: Seq<u8>| #[trigger]
            r@.sessions.contains_key(k) && k != peer ==> r@.sessions[k].queue.len() == 0)
            && r@.sessions[peer].queue.len() <= usize::MAX ==> n == r@.sessions[peer].queue.len(),
{
    let all = r.queues();
    let at = choose|i: int| 0 <= i < all.len() && (#[trigger] all[i]).0 == peer;
    let by = choose|i: int| 0 <= i < all.len() && (#[trigger] all[i]).0 == other;
    lemma_queued_two(all, at);
    let left = all.remove(at);
    let to = if by < at {
        by
    } else {
        by - 1
    };
    assert(left[to] == all[by]);
    lemma_queued_two(left, to);
    if forall|k: Seq<u8>| #[trigger]
        r@.sessions.contains_key(k) && k != peer ==> r@.sessions[k].queue.len() == 0 {
        assert forall|i: int| 0 <= i < all.len() && i != at implies (#[trigger] all[i]).1.queue.len()
            == 0 by {
            assert(r@.sessions.contains_key(all[i].0));
        }
        lemma_queued_one(all, at);
    }
}

/// Memory is estimated with 16384 bytes for each of the frames that full queues hold.
pub proof fn memory_is_estimated_by_full_queues(r: &SessionTxRegistry, n: usize)
    requires
        call_ensures(SessionTxRegistry::estimated_memory, (r,), n),
    ensures
        r@.sessions.len() * r@.capacity * 16384 <= usize::MAX ==> n == r@.sessions.len()
            * r@.capacity * 16384,
        r@.sessions.len() * r@.capacity * 16384 > usize::MAX ==> n == usize::MAX,
{
}

/// A new registry serves nobody and has lost nothing; its queues hold 4096 frames unless
/// another depth is chosen.
pub proof fn a_new_registry_is_empty(
    a: SessionTxRegistry,
    b: SessionTxRegistry,
    c: SessionTxRegistry,
    capacity: usize,
    drops: u64,
    peer: Seq<u8>,
)
    requires
        call_ensures(SessionTxRegistry::new, (), a),
        call_ensures(SessionTxRegistry::with_capacity, (capacity,), b),
        call_ensures(
            SessionTxRegistry::with_capacity_and_drop_counter,
            (capacity, drops),
            c,
        ),
    ensures
        !a@.sessions.contains_key(peer) && !b@.sessions.contains_key(peer)
            && !c@.sessions.contains_key(peer),
        a@.capacity == 4096 && b@.capacity == capacity && c@.capacity == capacity,
        a@.drops_total == 0 && b@.drops_total == 0 && c@.drops_total == drops,
{
}

} // verus!
