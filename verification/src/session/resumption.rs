//! Tickets that this side received, with the keys that they restore.

use crate::bytes::copy_bytes;
use crate::session::messages::SessionMsg;
use crate::session::peers::{BoundedPeerMap, Stamped};
use crate::session::rekey::{ArmOutcome, CryptoState, SessionKeys};
use crate::session::ticket::SESSION_TICKET_ENCRYPTED_SIZE;
use crate::session::wire::WireOutbox;
use crate::time::Instant;
use vstd::prelude::*;

verus! {

/// A ticket, the keys of the session in which it came, and who gave it.
pub struct ClientTicketEntry {
    pub blob: Vec<u8>,
    pub keys: SessionKeys,
    pub peer_public_key: String,
    pub peer_nonce: String,
}

/// A text, or the empty one.
pub open spec fn text_or_empty(t: Option<String>) -> Seq<char> {
    match t {
        Some(s) => s@,
        None => Seq::empty(),
    }
}

fn text_or_default(t: &Option<String>) -> (s: String)
    ensures
        s@ == text_or_empty(*t),
{
    match t {
        Some(s) => s.clone(),
        None => String::new(),
    }
}

/// Handles a ticket of the peer: it is kept with the session's keys for the next
/// connection. Nothing is kept without a place for tickets, without the keys, or
/// when the ticket has the wrong length.
pub fn handle_ticket_arm(
    peer: &[u8; 32],
    store: &mut Option<BoundedPeerMap<ClientTicketEntry>>,
    raw_session_keys: &Option<SessionKeys>,
    peer_public_key: &Option<String>,
    peer_nonce: &Option<String>,
    body: &[u8],
    now: Instant,
)
    ensures
        if (*old(store)) is None || raw_session_keys is None || body@.len()
            != SESSION_TICKET_ENCRYPTED_SIZE {
            *final(store) == *old(store)
        } else {
            &&& (*final(store)) is Some
            &&& (*final(store))->0.capacity == (*old(store))->0.capacity
            &&& (*final(store))->0.rows@.contains_key(peer@)
            &&& ({
                let e = (*final(store))->0.rows@[peer@].value;
                &&& e.blob@ == body@
                &&& e.keys == raw_session_keys->0
                &&& e.peer_public_key@ == text_or_empty(*peer_public_key)
                &&& e.peer_nonce@ == text_or_empty(*peer_nonce)
                &&& BoundedPeerMap::put(
                    (*old(store))->0.rows@,
                    (*old(store))->0.full(),
                    peer@,
                    Stamped { stamp: now, value: e },
                    (*final(store))->0.rows@,
                )
            })
        },
{
    if body.len() != SESSION_TICKET_ENCRYPTED_SIZE {
        return;
    }
    match (store, raw_session_keys) {
        (Some(tickets), Some(keys)) => {
            let entry: ClientTicketEntry = ClientTicketEntry {
                blob: copy_bytes(body),
                keys: *keys,
                peer_public_key: text_or_default(peer_public_key),
                peer_nonce: text_or_default(peer_nonce),
            };
            tickets.insert_evicting_oldest(peer.as_slice(), entry, now);
        },
        _ => {},
    }
}

/// Sends the ticket that waits for the start of the session, if there is one. A
/// ticket that cannot be sealed ends the session.
pub fn send_pending_session_ticket(
    crypto: &mut CryptoState,
    ticket_to_send: &mut Option<Vec<u8>>,
    wire: &mut WireOutbox,
) -> (r: ArmOutcome)
    requires
        (*old(ticket_to_send)) matches Some(b) ==> b@.len() <= u32::MAX,
    ensures
        (*final(ticket_to_send)) is None,
        final(crypto).rx_cipher == old(crypto).rx_cipher,
        match *old(ticket_to_send) {
            None => {
                &&& r == ArmOutcome::Continue
                &&& *final(crypto) == *old(crypto)
                &&& *final(wire) == *old(wire)
            },
            Some(blob) => match old(crypto).sends(SessionMsg::Ticket, blob@) {
                None => {
                    &&& r == ArmOutcome::Close
                    &&& *final(crypto) == *old(crypto)
                    &&& *final(wire) == *old(wire)
                },
                Some(w) => {
                    &&& final(crypto).tx_cipher is Some == old(crypto).tx_cipher is Some
                    &&& old(crypto).tx_cipher is Some ==> old(crypto).tx_cipher->0.advanced_to(
                        final(crypto).tx_cipher->0,
                    )
                    &&& if old(wire).has_room() {
                        &&& r == ArmOutcome::Continue
                        &&& old(wire).grown_by(w, *final(wire))
                    } else {
                        &&& r == ArmOutcome::WriteFailed
                        &&& *final(wire) == *old(wire)
                    }
                },
            },
        },
{
    match ticket_to_send.take() {
        None => ArmOutcome::Continue,
        Some(blob) => {
            match crypto.prepare(SessionMsg::Ticket, blob.as_slice()) {
                None => ArmOutcome::Close,
                Some(w) => {
                    match wire.push_wire(w) {
                        Ok(()) => ArmOutcome::Continue,
                        Err(_) => ArmOutcome::WriteFailed,
                    }
                },
            }
        },
    }
}

/// A ticket of the right length is kept for its peer with the keys of the session and who
/// gave it; without keys, a place or the right length nothing changes.
pub proof fn a_received_ticket_is_kept(
    peer: &[u8; 32],
    store: &mut Option<BoundedPeerMap<ClientTicketEntry>>,
    keys: &Option<SessionKeys>,
    public_key: &Option<String>,
    nonce: &Option<String>,
    body: &[u8],
    now: Instant,
)
    requires
        call_ensures(handle_ticket_arm, (peer, store, keys, public_key, nonce, body, now), ()),
    ensures
        *old(store) is Some && *keys is Some && body@.len() == SESSION_TICKET_ENCRYPTED_SIZE ==> {
            let m = (*final(store))->0.rows@;
            &&& *final(store) is Some
            &&& m.contains_key(peer@)
            &&& m[peer@].stamp == now
            &&& m[peer@].value.blob@ == body@
            &&& m[peer@].value.keys.tx_key == keys->0.tx_key
            &&& m[peer@].value.keys.rx_key == keys->0.rx_key
            &&& *public_key is Some ==> m[peer@].value.peer_public_key@ == public_key->0@
            &&& *public_key is None ==> m[peer@].value.peer_public_key@.len() == 0
            &&& *nonce is Some ==> m[peer@].value.peer_nonce@ == nonce->0@
            &&& *nonce is None ==> m[peer@].value.peer_nonce@.len() == 0
        },
        *old(store) is None || *keys is None || body@.len() != SESSION_TICKET_ENCRYPTED_SIZE
            ==> *final(store) == *old(store),
{
}

/// A waiting ticket is sent once, in a frame of its own kind: afterwards none waits, and a
/// second call sends nothing.
pub proof fn a_waiting_ticket_is_sent_once(
    c: &mut CryptoState,
    ticket: &mut Option<Vec<u8>>,
    wire: &mut WireOutbox,
    r: ArmOutcome,
    c2: &mut CryptoState,
    ticket2: &mut Option<Vec<u8>>,
    wire2: &mut WireOutbox,
    again: ArmOutcome,
)
    requires
        call_ensures(send_pending_session_ticket, (c, ticket, wire), r),
        *old(c2) == *final(c),
        *old(ticket2) == *final(ticket),
        *old(wire2) == *final(wire),
        call_ensures(send_pending_session_ticket, (c2, ticket2, wire2), again),
    ensures
        *final(ticket) is None,
        again == ArmOutcome::Continue,
        *final(c2) == *final(c),
        *final(wire2) == *final(wire),
        *old(ticket) is None ==> r == ArmOutcome::Continue && *final(wire) == *old(wire),
        *old(ticket) is Some && old(c).tx_cipher is None && old(wire).has_room() ==> r
            == ArmOutcome::Continue && old(wire).grown_by(
            crate::session::rekey_arms::session_frame(SessionMsg::Ticket, (*old(ticket))->0@),
            *final(wire),
        ),
        *old(ticket) is Some && old(c).tx_cipher is Some && old(c).tx_cipher->0.frames()
            == u64::MAX ==> r == ArmOutcome::Close && *final(wire) == *old(wire),
        !old(wire).has_room() ==> *final(wire) == *old(wire),
{
}

} // verus!
