//! Moving a session to another transport, seen from the session itself.

use crate::bytes::{all_zero, array32_at, zeros};
use crate::session::messages::SessionMsg;
use crate::session::rekey::SessionKeys;
use crate::session::rekey_arms::{build_session_frame, session_frame};
use crate::session::tx_registry::INTERACTIVE;
use crate::table::Table;
use vstd::prelude::*;

verus! {

/// A move that the peer announced: what the new connection will have to prove.
#[derive(Clone, Copy, Debug)]
pub struct PendingHandoff {
    pub peer_id: [u8; 32],
    pub nonce: [u8; 32],
    pub rx_key: [u8; 32],
}

/// What becomes of a peer's announcement.
#[derive(Debug)]
pub enum HandoffInitOutcome {
    /// The announcement is malformed: a violation of the protocol.
    Violation,
    /// The session's keys are not at hand.
    NoKeys,
    /// Announcements are not kept.
    NoRegistry,
    /// The announcement is kept, and this frame is queued for the peer in this class.
    Acknowledge(u8, Vec<u8>),
}

/// Handles a peer's announcement that it will move the session: it is kept under
/// the session's identifier, with the key under which the peer seals, and
/// acknowledged with the same nonce.
pub fn handle_handoff_init_arm(
    session_id: &[u8; 32],
    peer_id: &[u8; 32],
    raw_session_keys: &Option<SessionKeys>,
    registry: &mut Option<Table<PendingHandoff>>,
    body: &[u8],
) -> (r: HandoffInitOutcome)
    ensures
        if body@.len() != 32 {
            r is Violation && *final(registry) == *old(registry)
        } else if raw_session_keys is None {
            r is NoKeys && *final(registry) == *old(registry)
        } else if *old(registry) is None {
            r is NoRegistry && *final(registry) == *old(registry)
        } else {
            &&& r matches HandoffInitOutcome::Acknowledge(priority, f) && priority == INTERACTIVE
                && f@ == session_frame(SessionMsg::HandoffAck, body@)
            &&& (*final(registry)) is Some
            &&& exists|p: PendingHandoff|
                {
                    &&& p.peer_id == *peer_id
                    &&& p.nonce@ == body@
                    &&& p.rx_key == raw_session_keys->0.rx_key
                    &&& (*final(registry))->0@ == #[trigger] (*old(registry))->0@.insert(
                        session_id@,
                        p,
                    )
                }
        },
{
    if body.len() != 32 {
        return HandoffInitOutcome::Violation;
    }
    let nonce: [u8; 32] = array32_at(body, 0);
    assert(nonce@ =~= body@);
    match raw_session_keys {
        None => HandoffInitOutcome::NoKeys,
        Some(keys) => match registry {
            None => HandoffInitOutcome::NoRegistry,
            Some(reg) => {
                let p: PendingHandoff = PendingHandoff {
                    peer_id: *peer_id,
                    nonce,
                    rx_key: keys.rx_key,
                };
                let _ = reg.insert(session_id.as_slice(), p);
                HandoffInitOutcome::Acknowledge(
                    INTERACTIVE,
                    build_session_frame(SessionMsg::HandoffAck, nonce.as_slice()),
                )
            },
        },
    }
}

/// The acknowledgements that are waited for, one place for each session.
pub struct HandoffAckWaiters {
    slots: Table<Option<[u8; 32]>>,
}

impl View for HandoffAckWaiters {
    type V = Map<Seq<u8>, Option<[u8; 32]>>;

    closed spec fn view(&self) -> Map<Seq<u8>, Option<[u8; 32]>> {
        self.slots@
    }
}

impl HandoffAckWaiters {
    /// Nothing is waited for.
    pub fn new() -> (w: HandoffAckWaiters)
        ensures
            w@ == Map::<Seq<u8>, Option<[u8; 32]>>::empty(),
    {
        HandoffAckWaiters { slots: Table::new() }
    }

    /// Starts to wait for an acknowledgement in a session.
    pub fn register(&mut self, session_id: &[u8; 32])
        ensures
            final(self)@ == old(self)@.insert(session_id@, None),
    {
        let _ = self.slots.insert(session_id.as_slice(), None);
    }

    /// Stops to wait, and hands out what came.
    pub fn unregister(&mut self, session_id: &[u8; 32]) -> (r: Option<[u8; 32]>)
        ensures
            final(self)@ == old(self)@.remove(session_id@),
            r == if old(self)@.contains_key(session_id@) {
                old(self)@[session_id@]
            } else {
                None
            },
    {
        match self.slots.remove(session_id.as_slice()) {
            Some(x) => x,
            None => None,
        }
    }

    /// What has come for a session.
    pub fn received(&self, session_id: &[u8; 32]) -> (r: Option<[u8; 32]>)
        ensures
            r == if self@.contains_key(session_id@) {
                self@[session_id@]
            } else {
                None
            },
    {
        match self.slots.get(session_id.as_slice()) {
            Some(x) => *x,
            None => None,
        }
    }

    /// Delivers an acknowledgement, when one is waited for and none has come.
    pub fn deliver(&mut self, session_id: &[u8; 32], nonce: [u8; 32]) -> (delivered: bool)
        ensures
            delivered == (old(self)@.contains_key(session_id@) && old(
                self,
            )@[session_id@] is None),
            final(self)@ == if old(self)@.contains_key(session_id@) && old(
                self,
            )@[session_id@] is None {
                old(self)@.insert(session_id@, Some(nonce))
            } else {
                old(self)@
            },
    {
        let waiting: bool = match self.slots.get(session_id.as_slice()) {
            Some(x) => x.is_none(),
            None => false,
        };
        if waiting {
            let _ = self.slots.insert(session_id.as_slice(), Some(nonce));
        }
        waiting
    }
}

/// What becomes of a peer's acknowledgement.
#[derive(Clone, Copy, Debug, PartialEq, Eq, Structural)]
pub enum HandoffAckOutcome {
    /// The acknowledgement is malformed: a violation of the protocol.
    Violation,
    /// It was handed to the task that waits for it.
    Delivered,
    /// Nobody waits for it.
    NoListener,
}

/// Handles a peer's acknowledgement of our announcement: its nonce goes to the
/// task that waits for it in this session.
pub fn handle_handoff_ack_arm(
    session_id: &[u8; 32],
    waiters: &mut Option<HandoffAckWaiters>,
    body: &[u8],
) -> (r: HandoffAckOutcome)
    ensures
        if body@.len() != 32 {
            r is Violation && *final(waiters) == *old(waiters)
        } else if *old(waiters) matches Some(w) && w@.contains_key(session_id@)
            && w@[session_id@] is None {
            &&& r is Delivered
            &&& (*final(waiters)) is Some
            &&& exists|nonce: [u8; 32]|
                nonce@ == body@ && (*final(waiters))->0@ == #[trigger] (*old(waiters))->0@.insert(
                    session_id@,
                    Some(nonce),
                )
        } else {
            &&& r is NoListener
            &&& (*final(waiters)) is Some == (*old(waiters)) is Some
            &&& (*old(waiters)) is Some ==> (*final(waiters))->0@ == (*old(waiters))->0@
        },
{
    if body.len() != 32 {
        return HandoffAckOutcome::Violation;
    }
    let nonce: [u8; 32] = array32_at(body, 0);
    assert(nonce@ =~= body@);
    match waiters {
        None => HandoffAckOutcome::NoListener,
        Some(w) => {
            if w.deliver(session_id, nonce) {
                HandoffAckOutcome::Delivered
            } else {
                HandoffAckOutcome::NoListener
            }
        },
    }
}

/// The key under which a session is made known for moves that the peer starts. A
/// session without an identifier is not made known; one without keys at hand is
/// made known with an empty key.
pub fn register_swap_channel(session_id: &[u8; 32], raw_session_keys: &Option<SessionKeys>) -> (r:
    Option<[u8; 32]>)
    ensures
        r is Some == (session_id@ != zeros(32)),
        r matches Some(k) ==> k@ == match *raw_session_keys {
            Some(keys) => keys.tx_key@,
            None => zeros(32),
        },
{
    if all_zero(session_id.as_slice()) {
        return None;
    }
    match raw_session_keys {
        Some(keys) => Some(keys.tx_key),
        None => {
            let empty: [u8; 32] = [0u8;32];
            assert(empty@ =~= zeros(32));
            Some(empty)
        },
    }
}

/// An announcement is kept with the peer that made it, its nonce and the key under which
/// that peer seals, and answered with the same nonce; a malformed one, or one that cannot
/// be kept, leaves everything as it was.
pub proof fn an_announced_move_is_kept(
    session_id: &[u8; 32],
    peer_id: &[u8; 32],
    keys: &Option<SessionKeys>,
    registry: &mut Option<Table<PendingHandoff>>,
    body: &[u8],
    r: HandoffInitOutcome,
    other: Seq<u8>,
)
    requires
        other != session_id@,
        call_ensures(handle_handoff_init_arm, (session_id, peer_id, keys, registry, body), r),
    ensures
        r is Violation <==> body@.len() != 32,
        r is NoKeys <==> body@.len() == 32 && *keys is None,
        r is NoRegistry <==> body@.len() == 32 && *keys is Some && *old(registry) is None,
        r !is Acknowledge ==> *final(registry) == *old(registry),
        r is Acknowledge ==> {
            let was = (*old(registry))->0@;
            let is = (*final(registry))->0@;
            &&& *final(registry) is Some
            &&& is.contains_key(session_id@)
            &&& is[session_id@].peer_id == *peer_id
            &&& is[session_id@].nonce@ == body@
            &&& is[session_id@].rx_key == keys->0.rx_key
            &&& is.contains_key(other) == was.contains_key(other)
            &&& was.contains_key(other) ==> is[other] == was[other]
            &&& r->Acknowledge_0 == 1
            &&& r->Acknowledge_1@ == session_frame(SessionMsg::HandoffAck, body@)
        },
{
}

/// An acknowledgement reaches the task that waits in its session, once, and nobody else.
pub proof fn an_acknowledgement_is_delivered_once(
    w: &mut HandoffAckWaiters,
    session_id: &[u8; 32],
    v: &mut HandoffAckWaiters,
    nonce: [u8; 32],
    first: bool,
    u: &mut HandoffAckWaiters,
    another: [u8; 32],
    second: bool,
    x: &mut HandoffAckWaiters,
    got: Option<[u8; 32]>,
    y: &mut HandoffAckWaiters,
    third: bool,
)
    requires
        call_ensures(HandoffAckWaiters::register, (w, session_id), ()),
        *old(v) == *final(w),
        call_ensures(HandoffAckWaiters::deliver, (v, session_id, nonce), first),
        *old(u) == *final(v),
        call_ensures(HandoffAckWaiters::deliver, (u, session_id, another), second),
        *old(x) == *final(u),
        call_ensures(HandoffAckWaiters::unregister, (x, session_id), got),
        *old(y) == *final(x),
        call_ensures(HandoffAckWaiters::deliver, (y, session_id, another), third),
    ensures
        first,
        !second,
        got == Some(nonce),
        !third,
        forall|k: Seq<u8>| #[trigger]
            final(y)@.contains_key(k) ==> k != session_id@ && old(w)@.contains_key(k) && final(y)@[k] == old(w)@[k],
{
}

/// What has come for a session can be looked at until it is taken.
pub proof fn what_came_can_be_looked_at(
    w: &HandoffAckWaiters,
    session_id: &[u8; 32],
    seen: Option<[u8; 32]>,
    x: &mut HandoffAckWaiters,
    got: Option<[u8; 32]>,
)
    requires
        *old(x) == *w,
        call_ensures(HandoffAckWaiters::received, (w, session_id), seen),
        call_ensures(HandoffAckWaiters::unregister, (x, session_id), got),
    ensures
        seen == got,
        seen is Some ==> w@.contains_key(session_id@) && w@[session_id@] == seen,
{
}

/// An acknowledgement of a session with 32 bytes goes to the task that waits for it; one
/// of another length is a violation, and one that nobody waits for is of no effect.
pub proof fn acknowledgements_find_their_listener(
    session_id: &[u8; 32],
    waiters: &mut Option<HandoffAckWaiters>,
    body: &[u8],
    r: HandoffAckOutcome,
    other: Seq<u8>,
)
    requires
        other != session_id@,
        call_ensures(handle_handoff_ack_arm, (session_id, waiters, body), r),
    ensures
        r is Violation <==> body@.len() != 32,
        r is Delivered <==> body@.len() == 32 && *old(waiters) is Some && (*old(waiters))->0@.contains_key(session_id@) && (*old(waiters))->0@[session_id@] is None,
        r is Delivered ==> {
            let was = (*old(waiters))->0@;
            let is = (*final(waiters))->0@;
            &&& *final(waiters) is Some
            &&& is.contains_key(session_id@)
            &&& is[session_id@] is Some
            &&& is[session_id@]->0@ == body@
            &&& is.contains_key(other) == was.contains_key(other)
            &&& was.contains_key(other) ==> is[other] == was[other]
        },
        r !is Delivered && *old(waiters) is Some ==> *final(waiters) is Some && (*final(waiters))->0@ == (*old(waiters))->0@,
{
}

/// A session is made known for moves exactly when it has an identifier, under the key with
/// which this side seals.
pub proof fn a_session_with_an_identifier_is_made_known(
    session_id: &[u8; 32],
    keys: &Option<SessionKeys>,
    r: Option<[u8; 32]>,
)
    requires
        call_ensures(register_swap_channel, (session_id, keys), r),
    ensures
        r is None ==> forall|i: int| 0 <= i < 32 ==> #[trigger] session_id@[i] == 0,
        r is Some ==> exists|i: int| 0 <= i < 32 && #[trigger] session_id@[i] != 0,
        r is Some && *keys is Some ==> r->0@ == keys->0.tx_key@,
        r is Some && *keys is None ==> forall|i: int| 0 <= i < 32 ==> #[trigger] r->0@[i] == 0,
{
    if r is Some {
        assert(session_id@.len() == 32);
        if forall|i: int| 0 <= i < 32 ==> #[trigger] session_id@[i] == 0 {
            assert(session_id@ =~= zeros(32));
        }
    }
}

} // verus!
