//! Single-use session-resumption tickets.
//!
//! A sealed ticket is a random nonce and the sealed ticket bytes:
//! `nonce(12) || ciphertext(160) || tag(16)`, 188 bytes in all.

use crate::bytes::{
    append_bytes, array16_at, array32_at, be64, copy_bytes, lemma_be64, of_be64, push_be64,
    read_be64,
};
use crate::clock::unix_now_secs;
use crate::crypto::{aead_sealed, open_bytes, random_bytes, recovered, seal_bytes, NONCE_LEN};
use crate::table::{keys_unique, lemma_row, row_of, Table};
use vstd::prelude::*;

verus! {

/// Length in bytes of the ticket before it is sealed.
pub const PLAINTEXT_SIZE: usize = 160;

/// Length in bytes of a sealed ticket.
pub const SESSION_TICKET_ENCRYPTED_SIZE: usize = 188;

/// How long a ticket can be redeemed.
pub const SESSION_TICKET_TTL_SECS: u64 = 3600;

/// How often the ticket key is replaced. It must not be less than the life of a
/// ticket, or a live ticket would outlast the key that can read it.
pub const TICKET_KEY_ROTATION_SECS: u64 = SESSION_TICKET_TTL_SECS;

/// How far in the future a ticket may claim to have been issued.
pub const INTERACTIVE_SKEW_SECS: u64 = 60;

/// How many spent tickets are remembered at most.
pub const MAX_CONSUMED_TICKETS: usize = 8192;

/// The data that is authenticated with every ticket: `ovl1-ticket-v1`.
pub open spec fn ticket_aad() -> Seq<u8> {
    seq![
        0x6fu8,
        0x76u8,
        0x6cu8,
        0x31u8,
        0x2du8,
        0x74u8,
        0x69u8,
        0x63u8,
        0x6bu8,
        0x65u8,
        0x74u8,
        0x2du8,
        0x76u8,
        0x31u8,
    ]
}

fn build_aad() -> (v: Vec<u8>)
    ensures
        v@ == ticket_aad(),
{
    let v: Vec<u8> = vec![
        0x6f, 0x76, 0x6c, 0x31, 0x2d, 0x74, 0x69, 0x63, 0x6b, 0x65, 0x74, 0x2d, 0x76, 0x31,
    ];
    assert(v@ =~= ticket_aad());
    v
}

/// What a ticket restores on the host that issued it.
#[derive(Clone, Copy, Debug, PartialEq, Eq)]
pub struct SessionTicket {
    pub session_id: [u8; 32],
    pub peer_id: [u8; 32],
    pub tx_key: [u8; 32],
    pub rx_key: [u8; 32],
    pub issued_at: u64,
    pub valid_until: u64,
    pub peer_instance_id: [u8; 16],
}

/// The fields of a ticket.
pub struct TicketFields {
    pub session_id: Seq<u8>,
    pub peer_id: Seq<u8>,
    pub tx_key: Seq<u8>,
    pub rx_key: Seq<u8>,
    pub issued_at: u64,
    pub valid_until: u64,
    pub peer_instance_id: Seq<u8>,
}

impl View for SessionTicket {
    type V = TicketFields;

    open spec fn view(&self) -> TicketFields {
        TicketFields {
            session_id: self.session_id@,
            peer_id: self.peer_id@,
            tx_key: self.tx_key@,
            rx_key: self.rx_key@,
            issued_at: self.issued_at,
            valid_until: self.valid_until,
            peer_instance_id: self.peer_instance_id@,
        }
    }
}

impl TicketFields {
    /// Whether every field has the length that it has in a ticket.
    pub open spec fn sized(self) -> bool {
        self.session_id.len() == 32 && self.peer_id.len() == 32 && self.tx_key.len() == 32
            && self.rx_key.len() == 32 && self.peer_instance_id.len() == 16
    }

    /// The bytes of a ticket.
    pub open spec fn bytes(self) -> Seq<u8> {
        self.session_id + self.peer_id + self.tx_key + self.rx_key + be64(self.issued_at) + be64(
            self.valid_until,
        ) + self.peer_instance_id
    }

    /// The ticket with the given bytes.
    pub open spec fn of(s: Seq<u8>) -> Option<TicketFields> {
        if s.len() != PLAINTEXT_SIZE {
            None
        } else {
            Some(
                TicketFields {
                    session_id: s.subrange(0, 32),
                    peer_id: s.subrange(32, 64),
                    tx_key: s.subrange(64, 96),
                    rx_key: s.subrange(96, 128),
                    issued_at: of_be64(s.subrange(128, 136)),
                    valid_until: of_be64(s.subrange(136, 144)),
                    peer_instance_id: s.subrange(144, 160),
                },
            )
        }
    }

    /// Whether a host whose clock reads `now` takes the ticket: it was not
    /// issued in the future, up to the tolerated skew, and has not run out.
    pub open spec fn current(self, now: u64) -> bool {
        self.issued_at <= later_by(now, INTERACTIVE_SKEW_SECS) && now <= self.valid_until
    }
}

/// `secs` after `now`, or the last countable second.
pub open spec fn later_by(now: u64, secs: u64) -> u64 {
    if now + secs > u64::MAX {
        u64::MAX
    } else {
        (now + secs) as u64
    }
}

/// A ticket reads back from its own bytes.
pub proof fn ticket_reads_back(t: TicketFields)
    requires
        t.sized(),
    ensures
        t.bytes().len() == PLAINTEXT_SIZE,
        TicketFields::of(t.bytes()) == Some(t),
{
    lemma_be64(t.issued_at);
    lemma_be64(t.valid_until);
    let s = t.bytes();
    assert(s.subrange(0, 32) =~= t.session_id);
    assert(s.subrange(32, 64) =~= t.peer_id);
    assert(s.subrange(64, 96) =~= t.tx_key);
    assert(s.subrange(96, 128) =~= t.rx_key);
    assert(s.subrange(128, 136) =~= be64(t.issued_at));
    assert(s.subrange(136, 144) =~= be64(t.valid_until));
    assert(s.subrange(144, 160) =~= t.peer_instance_id);
}

impl SessionTicket {
    /// The bytes of the ticket.
    pub fn encode(&self) -> (v: Vec<u8>)
        ensures
            v@ == self@.bytes(),
            v@.len() == PLAINTEXT_SIZE,
    {
        let mut v: Vec<u8> = copy_bytes(self.session_id.as_slice());
        append_bytes(&mut v, self.peer_id.as_slice());
        append_bytes(&mut v, self.tx_key.as_slice());
        append_bytes(&mut v, self.rx_key.as_slice());
        push_be64(&mut v, self.issued_at);
        push_be64(&mut v, self.valid_until);
        append_bytes(&mut v, self.peer_instance_id.as_slice());
        proof {
            ticket_reads_back(self@);
        }
        v
    }

    /// The ticket with the given bytes.
    pub fn decode(s: &[u8]) -> (r: Option<SessionTicket>)
        ensures
            r is Some == TicketFields::of(s@) is Some,
            r matches Some(t) ==> TicketFields::of(s@) == Some(t@),
    {
        if s.len() != PLAINTEXT_SIZE {
            return None;
        }
        let t: SessionTicket = SessionTicket {
            session_id: array32_at(s, 0),
            peer_id: array32_at(s, 32),
            tx_key: array32_at(s, 64),
            rx_key: array32_at(s, 96),
            issued_at: read_be64(s, 128),
            valid_until: read_be64(s, 136),
            peer_instance_id: array16_at(s, 144),
        };
        Some(t)
    }
}

/// A 256-bit key that seals tickets.
pub struct TicketKey {
    key: [u8; 32],
}

impl View for TicketKey {
    type V = Seq<u8>;

    closed spec fn view(&self) -> Seq<u8> {
        self.key@
    }
}

impl TicketKey {
    /// A fresh random key.
    pub fn generate() -> (k: TicketKey)
        ensures
            k@.len() == 32,
    {
        let bytes: Vec<u8> = random_bytes(32);
        TicketKey { key: array32_at(bytes.as_slice(), 0) }
    }

    /// The key with the given bytes.
    pub fn from_bytes(key: [u8; 32]) -> (k: TicketKey)
        ensures
            k@ == key@,
    {
        TicketKey { key }
    }
}

/// Issues tickets and redeems each of them at most once.
pub struct TicketIssuer {
    key: TicketKey,
    prev_key: Option<TicketKey>,
    consumed: Table<u64>,
}

/// What an issuer knows: its keys and the tickets that were spent.
pub struct IssuerState {
    pub key: Seq<u8>,
    pub prev_key: Option<Seq<u8>>,
    /// From the nonce of a spent ticket to the ticket's last valid second.
    pub consumed: Map<Seq<u8>, u64>,
}

/// The nonce of a sealed ticket.
pub open spec fn nonce_of(blob: Seq<u8>) -> Seq<u8> {
    blob.subrange(0, NONCE_LEN as int)
}

/// What `key` recovers from a sealed ticket.
pub open spec fn opened_under(key: Seq<u8>, blob: Seq<u8>) -> Option<Seq<u8>> {
    recovered(
        key,
        nonce_of(blob),
        ticket_aad(),
        blob.subrange(NONCE_LEN as int, blob.len() as int),
    )
}

/// Whether `blob` is the ticket `t` sealed under `key`.
pub open spec fn is_sealed_ticket(key: Seq<u8>, blob: Seq<u8>, t: TicketFields) -> bool {
    blob.len() == SESSION_TICKET_ENCRYPTED_SIZE && opened_under(key, blob) == Some(t.bytes())
}

/// The spent tickets that could still be valid at `now`.
pub open spec fn still_valid(consumed: Map<Seq<u8>, u64>, now: u64) -> Map<Seq<u8>, u64> {
    Map::new(|k: Seq<u8>| consumed.contains_key(k) && now <= consumed[k], |k: Seq<u8>| consumed[k])
}

impl IssuerState {
    /// What the issuer recovers from a sealed ticket: under the current key, or
    /// else under the previous one.
    pub open spec fn opens(self, blob: Seq<u8>) -> Option<Seq<u8>> {
        match opened_under(self.key, blob) {
            Some(p) => Some(p),
            None => match self.prev_key {
                Some(k) => opened_under(k, blob),
                None => None,
            },
        }
    }

    /// The ticket in a sealed ticket, when it is genuine and current at `now`.
    pub open spec fn genuine(self, blob: Seq<u8>, now: u64) -> Option<TicketFields> {
        if blob.len() != SESSION_TICKET_ENCRYPTED_SIZE {
            None
        } else {
            match self.opens(blob) {
                None => None,
                Some(p) => match TicketFields::of(p) {
                    None => None,
                    Some(t) => if t.current(now) {
                        Some(t)
                    } else {
                        None
                    },
                },
            }
        }
    }

    /// The ticket that redeeming gives at `now`: a genuine, current ticket that
    /// was not spent.
    pub open spec fn redeems(self, blob: Seq<u8>, now: u64) -> Option<TicketFields> {
        match self.genuine(blob, now) {
            None => None,
            Some(t) => if still_valid(self.consumed, now).contains_key(nonce_of(blob)) {
                None
            } else {
                Some(t)
            },
        }
    }

    /// Whether `next` is this state after `blob` was presented at `now`. A
    /// genuine ticket drops the spent tickets that ran out. If it is redeemed it
    /// is remembered, and when there are too many, one that runs out first is
    /// forgotten.
    pub open spec fn presented(self, blob: Seq<u8>, now: u64, next: IssuerState) -> bool {
        let live = still_valid(self.consumed, now);
        &&& next.key == self.key
        &&& next.prev_key == self.prev_key
        &&& match self.genuine(blob, now) {
            None => next.consumed == self.consumed,
            Some(t) => if live.contains_key(nonce_of(blob)) {
                next.consumed == live
            } else if live.len() < MAX_CONSUMED_TICKETS {
                next.consumed == live.insert(nonce_of(blob), t.valid_until)
            } else {
                exists|k: Seq<u8>|
                    {
                        &&& #[trigger] live.contains_key(k)
                        &&& forall|j: Seq<u8>| #[trigger]
                            live.contains_key(j) ==> live[k] <= live[j]
                        &&& next.consumed == live.remove(k).insert(nonce_of(blob), t.valid_until)
                    }
            },
        }
    }

    /// The state after the key was replaced.
    pub open spec fn rotated(self, next_key: Seq<u8>) -> IssuerState {
        IssuerState { key: next_key, prev_key: Some(self.key), consumed: self.consumed }
    }
}

impl View for TicketIssuer {
    type V = IssuerState;

    closed spec fn view(&self) -> IssuerState {
        IssuerState {
            key: self.key@,
            prev_key: match self.prev_key {
                Some(k) => Some(k@),
                None => None,
            },
            consumed: self.consumed@,
        }
    }
}

impl TicketIssuer {
    #[verifier::type_invariant]
    spec fn bounded(self) -> bool {
        self.consumed@.dom().finite() && self.consumed@.len() <= MAX_CONSUMED_TICKETS
    }

    /// An issuer that has spent no ticket.
    pub fn new(key: TicketKey) -> (i: TicketIssuer)
        ensures
            i@ == (IssuerState {
                key: key@,
                prev_key: None,
                consumed: Map::<Seq<u8>, u64>::empty(),
            }),
    {
        TicketIssuer { key, prev_key: None, consumed: Table::new() }
    }

    /// Issues under `next` from now on. The key so far only reads tickets, and
    /// the one before it is gone.
    pub fn rotate(&mut self, next: TicketKey)
        ensures
            final(self)@ == old(self)@.rotated(next@),
    {
        proof {
            use_type_invariant(&*self);
        }
        let mut outgoing: TicketKey = next;
        std::mem::swap(&mut self.key, &mut outgoing);
        self.prev_key = Some(outgoing);
    }

    /// Rotates to a fresh random key.
    pub fn rotate_fresh(&mut self)
        ensures
            exists|k: Seq<u8>| k.len() == 32 && final(self)@ == #[trigger] old(self)@.rotated(k),
    {
        let key: TicketKey = TicketKey::generate();
        let ghost k = key@;
        self.rotate(key);
        assert(self@ == old(self)@.rotated(k));
    }

    /// Whether a previous key is held.
    pub fn has_previous_key(&self) -> (b: bool)
        ensures
            b == (self@.prev_key is Some),
    {
        self.prev_key.is_some()
    }

    /// How many spent tickets are remembered.
    pub fn consumed_tickets_len(&self) -> (n: usize)
        ensures
            n == self@.consumed.len(),
            n <= MAX_CONSUMED_TICKETS,
    {
        proof {
            use_type_invariant(self);
        }
        self.consumed.len()
    }

    /// Remembers a ticket as spent without redeeming it.
    pub fn remember_consumed(&mut self, nonce: &[u8; 12], valid_until: u64)
        requires
            old(self)@.consumed.len() < MAX_CONSUMED_TICKETS,
        ensures
            final(self)@ == (IssuerState {
                consumed: old(self)@.consumed.insert(nonce@, valid_until),
                ..old(self)@
            }),
    {
        proof {
            use_type_invariant(&*self);
        }
        let mut table: Table<u64> = Table::new();
        std::mem::swap(&mut table, &mut self.consumed);
        let _ = table.insert(nonce.as_slice(), valid_until);
        self.consumed = table;
    }

    /// Seals `ticket` under the issuing key with the given nonce. Under that key
    /// the result opens to the ticket again.
    pub fn encrypt_with_nonce(&self, ticket: &SessionTicket, nonce: &[u8; 12]) -> (blob: Vec<u8>)
        ensures
            blob@ == nonce@ + aead_sealed(self@.key, nonce@, ticket_aad(), ticket@.bytes()),
            nonce_of(blob@) == nonce@,
            is_sealed_ticket(self@.key, blob@, ticket@),
    {
        let plaintext: Vec<u8> = ticket.encode();
        let aad: Vec<u8> = build_aad();
        let mut blob: Vec<u8> = copy_bytes(nonce.as_slice());
        match seal_bytes(
            self.key.key.as_slice(),
            nonce.as_slice(),
            aad.as_slice(),
            plaintext.as_slice(),
        ) {
            Some(sealed) => {
                append_bytes(&mut blob, sealed.as_slice());
                proof {
                    assert(nonce_of(blob@) =~= nonce@);
                    assert(blob@.subrange(NONCE_LEN as int, blob@.len() as int) =~= sealed@);
                }
                blob
            },
            None => {
                assert(false);
                blob
            },
        }
    }

    /// Seals `ticket` under the issuing key with a random nonce.
    pub fn encrypt(&self, ticket: &SessionTicket) -> (blob: Vec<u8>)
        ensures
            is_sealed_ticket(self@.key, blob@, ticket@),
            blob@ == nonce_of(blob@) + aead_sealed(
                self@.key,
                nonce_of(blob@),
                ticket_aad(),
                ticket@.bytes(),
            ),
    {
        let drawn: Vec<u8> = random_bytes(NONCE_LEN);
        let mut nonce: [u8; 12] = [0u8; 12];
        let mut i: usize = 0;
        while i < NONCE_LEN
            invariant
                0 <= i <= 12,
                drawn@.len() == 12,
            decreases 12 - i,
        {
            nonce[i] = drawn[i];
            i = i + 1;
        }
        self.encrypt_with_nonce(ticket, &nonce)
    }

    /// The ticket that is issued at `now`.
    pub fn ticket_at(
        now: u64,
        session_id: [u8; 32],
        peer_id: [u8; 32],
        peer_instance_id: [u8; 16],
        tx_key: [u8; 32],
        rx_key: [u8; 32],
    ) -> (t: SessionTicket)
        ensures
            t@ == issued_ticket(
                now,
                session_id@,
                peer_id@,
                peer_instance_id@,
                tx_key@,
                rx_key@,
            ),
            t.session_id == session_id,
            t.peer_id == peer_id,
            t.tx_key == tx_key,
            t.rx_key == rx_key,
            t.peer_instance_id == peer_instance_id,
            t.issued_at == now,
            t.valid_until == if now + 3600 <= u64::MAX {
                now + 3600
            } else {
                u64::MAX as int
            },
    {
        SessionTicket {
            session_id,
            peer_id,
            tx_key,
            rx_key,
            issued_at: now,
            valid_until: now.saturating_add(SESSION_TICKET_TTL_SECS),
            peer_instance_id,
        }
    }

    /// Issues a ticket that is bound to one instance of a peer.
    pub fn issue_for_instance(
        &self,
        session_id: [u8; 32],
        peer_id: [u8; 32],
        peer_instance_id: [u8; 16],
        tx_key: [u8; 32],
        rx_key: [u8; 32],
    ) -> (blob: Vec<u8>)
        ensures
            exists|now: u64|
                is_sealed_ticket(
                    self@.key,
                    blob@,
                    #[trigger] issued_ticket(
                        now,
                        session_id@,
                        peer_id@,
                        peer_instance_id@,
                        tx_key@,
                        rx_key@,
                    ),
                ),
            exists|t: TicketFields| #[trigger]
                is_sealed_ticket(self@.key, blob@, t) && t.session_id == session_id@ && t.peer_id
                    == peer_id@ && t.tx_key == tx_key@ && t.rx_key == rx_key@
                    && t.peer_instance_id == peer_instance_id@ && t.valid_until - t.issued_at
                    == 3600,
    {
        let now: u64 = unix_now_secs();
        let ticket: SessionTicket = Self::ticket_at(
            now,
            session_id,
            peer_id,
            peer_instance_id,
            tx_key,
            rx_key,
        );
        self.encrypt(&ticket)
    }

    /// Issues a ticket for a peer whose instance is not known.
    pub fn issue(
        &self,
        session_id: [u8; 32],
        peer_id: [u8; 32],
        tx_key: [u8; 32],
        rx_key: [u8; 32],
    ) -> (blob: Vec<u8>)
        ensures
            exists|now: u64|
                is_sealed_ticket(
                    self@.key,
                    blob@,
                    #[trigger] issued_ticket(
                        now,
                        session_id@,
                        peer_id@,
                        crate::bytes::zeros(16),
                        tx_key@,
                        rx_key@,
                    ),
                ),
            exists|t: TicketFields| #[trigger]
                is_sealed_ticket(self@.key, blob@, t) && t.session_id == session_id@ && t.peer_id
                    == peer_id@ && t.tx_key == tx_key@ && t.rx_key == rx_key@
                    && t.peer_instance_id == crate::bytes::zeros(16) && t.valid_until
                    - t.issued_at == 3600,
    {
        let instance: [u8; 16] = [0u8; 16];
        assert(instance@ =~= crate::bytes::zeros(16));
        self.issue_for_instance(session_id, peer_id, instance, tx_key, rx_key)
    }

    fn open_blob(&self, blob: &[u8]) -> (r: Option<Vec<u8>>)
        requires
            blob@.len() == SESSION_TICKET_ENCRYPTED_SIZE,
        ensures
            r is Some == self@.opens(blob@) is Some,
            r matches Some(p) ==> self@.opens(blob@) == Some(p@),
    {
        let aad: Vec<u8> = build_aad();
        let nonce: &[u8] = vstd::slice::slice_subrange(blob, 0, NONCE_LEN);
        let sealed: &[u8] = vstd::slice::slice_subrange(blob, NONCE_LEN, blob.len());
        match open_bytes(self.key.key.as_slice(), nonce, aad.as_slice(), sealed) {
            Some(p) => Some(p),
            None => match &self.prev_key {
                Some(k) => open_bytes(k.key.as_slice(), nonce, aad.as_slice(), sealed),
                None => None,
            },
        }
    }

    /// Redeems a sealed ticket at `now`. It gives nothing when the length is
    /// wrong, when no key opens it, when it is from the future or has run out,
    /// and when it was spent already.
    pub fn decrypt_at(&mut self, blob: &[u8], now: u64) -> (r: Option<SessionTicket>)
        ensures
            r is Some == old(self)@.redeems(blob@, now) is Some,
            r matches Some(t) ==> old(self)@.redeems(blob@, now) == Some(t@),
            old(self)@.presented(blob@, now, final(self)@),
            final(self)@.consumed.len() <= MAX_CONSUMED_TICKETS,
    {
        proof {
            use_type_invariant(&*self);
        }
        if blob.len() != SESSION_TICKET_ENCRYPTED_SIZE {
            return None;
        }
        let plaintext: Vec<u8> = match self.open_blob(blob) {
            Some(p) => p,
            None => {
                return None;
            },
        };
        let ticket: SessionTicket = match SessionTicket::decode(plaintext.as_slice()) {
            Some(t) => t,
            None => {
                return None;
            },
        };
        if ticket.issued_at > now.saturating_add(INTERACTIVE_SKEW_SECS) {
            return None;
        }
        if now > ticket.valid_until {
            return None;
        }
        let nonce: &[u8] = vstd::slice::slice_subrange(blob, 0, NONCE_LEN);
        let mut table: Table<u64> = Table::new();
        std::mem::swap(&mut table, &mut self.consumed);
        drop_expired(&mut table, now);
        if table.contains(nonce) {
            self.consumed = table;
            return None;
        }
        if table.len() >= MAX_CONSUMED_TICKETS {
            forget_first_expiring(&mut table);
        }
        let _ = table.insert(nonce, ticket.valid_until);
        self.consumed = table;
        Some(ticket)
    }

    /// Redeems a sealed ticket at the time that the system clock shows.
    pub fn decrypt(&mut self, blob: &[u8]) -> (r: Option<SessionTicket>)
        ensures
            exists|now: u64|
                {
                    &&& #[trigger] old(self)@.presented(blob@, now, final(self)@)
                    &&& r is Some == old(self)@.redeems(blob@, now) is Some
                    &&& r matches Some(t) ==> old(self)@.redeems(blob@, now) == Some(t@)
                },
    {
        let now: u64 = unix_now_secs();
        self.decrypt_at(blob, now)
    }
}

/// The ticket that is issued at `now`.
pub open spec fn issued_ticket(
    now: u64,
    session_id: Seq<u8>,
    peer_id: Seq<u8>,
    peer_instance_id: Seq<u8>,
    tx_key: Seq<u8>,
    rx_key: Seq<u8>,
) -> TicketFields {
    TicketFields {
        session_id,
        peer_id,
        tx_key,
        rx_key,
        issued_at: now,
        valid_until: later_by(now, SESSION_TICKET_TTL_SECS),
        peer_instance_id,
    }
}

/// Drops the spent tickets that ran out before `now`.
fn drop_expired(table: &mut Table<u64>, now: u64)
    ensures
        final(table)@ == still_valid(old(table)@, now),
        final(table)@.dom().finite(),
        final(table)@.len() <= old(table)@.len(),
{
    let ghost before = table@;
    let mut n: usize = table.len();
    let mut i: usize = 0;
    while i < n
        invariant
            0 <= i <= n,
            n == table.rows().len(),
            n == table@.len(),
            table@.dom().finite(),
            keys_unique(table.rows()),
            n <= before.len(),
            before == old(table)@,
            still_valid(table@, now) == still_valid(before, now),
            forall|j: int| 0 <= j < i ==> now <= #[trigger] table.rows()[j].1,
        decreases n - i,
    {
        let ghost rows = table.rows();
        let ghost m = table@;
        if now <= *table.value_at(i) {
            i = i + 1;
        } else {
            let _ = table.remove_at(i);
            n = table.len();
            proof {
                let k = rows[i as int].0;
                assert(still_valid(m.remove(k), now) =~= still_valid(m, now));
                assert forall|j: int| 0 <= j < i implies now <= #[trigger] table.rows()[j].1 by {
                    assert(table.rows()[j] == rows[j]);
                }
            }
        }
    }
    proof {
        assert forall|k: Seq<u8>| table@.contains_key(k) implies now <= table@[k] by {
            lemma_row(table.rows(), row_of(table.rows(), k));
        }
        assert(still_valid(table@, now) =~= table@);
    }
}

/// Forgets one of the spent tickets that run out first.
fn forget_first_expiring(table: &mut Table<u64>)
    requires
        old(table)@.len() > 0,
    ensures
        exists|k: Seq<u8>|
            {
                &&& #[trigger] old(table)@.contains_key(k)
                &&& forall|j: Seq<u8>| #[trigger]
                    old(table)@.contains_key(j) ==> old(table)@[k] <= old(table)@[j]
                &&& final(table)@ == old(table)@.remove(k)
            },
        final(table)@.dom().finite(),
        final(table)@.len() == old(table)@.len() - 1,
{
    let n: usize = table.len();
    let mut best: usize = 0;
    let mut i: usize = 1;
    while i < n
        invariant
            0 <= best < n,
            1 <= i <= n,
            n == table.rows().len(),
            table@ == old(table)@,
            table.rows() == old(table).rows(),
            forall|j: int| 0 <= j < i ==> table.rows()[best as int].1 <= #[trigger] table.rows()[j].1,
        decreases n - i,
    {
        if *table.value_at(i) < *table.value_at(best) {
            best = i;
        }
        i = i + 1;
    }
    let ghost rows = table.rows();
    let ghost m = table@;
    let ghost k = rows[best as int].0;
    let _ = table.remove_at(best);
    let after: usize = table.len();
    proof {
        lemma_row(rows, best as int);
        assert forall|j: Seq<u8>| #[trigger] m.contains_key(j) implies m[k] <= m[j] by {
            lemma_row(rows, row_of(rows, j));
        }
        assert(m.contains_key(k));
        assert(after == rows.len() - 1);
    }
}

/// A ticket that is sealed under the issuing key, or under the previous key when
/// the issuing key does not open it, is redeemed while it is current and
/// unspent.
pub proof fn issued_ticket_redeems(s: IssuerState, blob: Seq<u8>, t: TicketFields, now: u64)
    requires
        t.sized(),
        is_sealed_ticket(s.key, blob, t) || (opened_under(s.key, blob) is None && s.prev_key
            is Some && is_sealed_ticket(s.prev_key->0, blob, t)),
        t.current(now),
        !s.consumed.contains_key(nonce_of(blob)),
    ensures
        s.redeems(blob, now) == Some(t),
{
    ticket_reads_back(t);
}

/// A ticket issued at one moment is current from then on for the whole life of a
/// ticket.
pub proof fn issued_ticket_lasts(
    issued: u64,
    now: u64,
    session_id: Seq<u8>,
    peer_id: Seq<u8>,
    instance: Seq<u8>,
    tx_key: Seq<u8>,
    rx_key: Seq<u8>,
)
    ensures
        issued <= now <= issued + SESSION_TICKET_TTL_SECS ==> issued_ticket(
            issued,
            session_id,
            peer_id,
            instance,
            tx_key,
            rx_key,
        ).current(now),
        issued + SESSION_TICKET_TTL_SECS < now ==> !issued_ticket(
            issued,
            session_id,
            peer_id,
            instance,
            tx_key,
            rx_key,
        ).current(now),
{
}

/// A ticket that was issued before the key was replaced is redeemed after it,
/// when the new key does not open it by chance.
pub proof fn ticket_survives_one_rotation(
    s: IssuerState,
    next_key: Seq<u8>,
    blob: Seq<u8>,
    t: TicketFields,
    now: u64,
)
    requires
        t.sized(),
        is_sealed_ticket(s.key, blob, t),
        opened_under(next_key, blob) is None,
        t.current(now),
        !s.consumed.contains_key(nonce_of(blob)),
    ensures
        s.rotated(next_key).redeems(blob, now) == Some(t),
{
    issued_ticket_redeems(s.rotated(next_key), blob, t, now);
}

/// After two replacements neither key of the issuer is the old one, so only the
/// two new keys decide what is redeemed.
pub proof fn key_is_gone_after_two_rotations(
    s: IssuerState,
    second: Seq<u8>,
    third: Seq<u8>,
    blob: Seq<u8>,
    now: u64,
)
    requires
        opened_under(second, blob) is None,
        opened_under(third, blob) is None,
    ensures
        s.rotated(second).rotated(third).redeems(blob, now) is None,
{
}

/// A redeemed ticket is not redeemed again, at any later reading of the clock,
/// whether or not the key was replaced meanwhile.
pub proof fn spent_ticket_stays_spent(
    s: IssuerState,
    after: IssuerState,
    blob: Seq<u8>,
    now: u64,
    later: u64,
    next_key: Seq<u8>,
)
    requires
        s.redeems(blob, now) is Some,
        s.presented(blob, now, after),
    ensures
        after.redeems(blob, later) is None,
        opened_under(next_key, blob) is None ==> after.rotated(next_key).redeems(blob, later)
            is None,
{
    let t = s.redeems(blob, now)->0;
    let live = still_valid(s.consumed, now);
    assert(after.consumed.contains_key(nonce_of(blob)));
    assert(after.consumed[nonce_of(blob)] == t.valid_until);
    assert(after.opens(blob) == s.opens(blob));
    if opened_under(next_key, blob) is None {
        match opened_under(s.key, blob) {
            Some(p) => {
                assert(after.rotated(next_key).opens(blob) == s.opens(blob));
            },
            None => {
                assert(after.rotated(next_key).opens(blob) is None);
            },
        }
    }
}

/// Presenting one ticket never makes another spent ticket redeemable, as long as
/// the memory of spent tickets is not full.
pub proof fn other_tickets_stay_spent(
    s: IssuerState,
    after: IssuerState,
    blob: Seq<u8>,
    now: u64,
    other: Seq<u8>,
    later: u64,
)
    requires
        s.presented(blob, now, after),
        still_valid(s.consumed, now).len() < MAX_CONSUMED_TICKETS,
        still_valid(s.consumed, now).contains_key(nonce_of(other)),
    ensures
        after.consumed.contains_key(nonce_of(other)),
        nonce_of(other) != nonce_of(blob) ==> after.consumed[nonce_of(other)]
            == s.consumed[nonce_of(other)],
        s.consumed[nonce_of(other)] >= later && nonce_of(other) != nonce_of(blob)
            ==> after.redeems(other, later) is None,
{
    match s.genuine(blob, now) {
        None => {},
        Some(t) => {},
    }
}

/// What is done to an issuer: a sealed ticket is presented when its clock reads
/// `now`, or its key is replaced.
pub enum IssuerStep {
    Present { blob: Seq<u8>, now: u64 },
    Rotate { key: Seq<u8> },
}

impl IssuerStep {
    /// Whether `after` is the state that the step leaves behind.
    pub open spec fn leads(self, before: IssuerState, after: IssuerState) -> bool {
        match self {
            IssuerStep::Present { blob, now } => before.presented(blob, now, after),
            IssuerStep::Rotate { key } => after == before.rotated(key),
        }
    }

    /// Whether the step comes in order: the clock has come to `from`, and there is
    /// room to remember a spent ticket.
    pub open spec fn in_order(self, before: IssuerState, from: u64) -> bool {
        match self {
            IssuerStep::Present { blob: _, now } => from <= now && still_valid(
                before.consumed,
                now,
            ).len() < MAX_CONSUMED_TICKETS,
            IssuerStep::Rotate { key: _ } => true,
        }
    }

    /// Whether the step brings no key that opens `blob` by chance.
    pub open spec fn keeps_closed(self, blob: Seq<u8>) -> bool {
        match self {
            IssuerStep::Present { blob: _, now: _ } => true,
            IssuerStep::Rotate { key } => opened_under(key, blob) is None,
        }
    }

    /// What the clock read at the step, or `from` when nobody looked.
    pub open spec fn time(self, from: u64) -> u64 {
        match self {
            IssuerStep::Present { blob: _, now } => now,
            IssuerStep::Rotate { key: _ } => from,
        }
    }
}

/// Whether `states` are what the issuer goes through in `steps`, and `clock` what
/// its clock has come to before each.
pub open spec fn issuer_runs(
    states: Seq<IssuerState>,
    steps: Seq<IssuerStep>,
    clock: Seq<u64>,
) -> bool {
    &&& states.len() == steps.len() + 1
    &&& clock.len() == steps.len() + 1
    &&& forall|i: int|
        0 <= i < steps.len() ==> {
            &&& (#[trigger] steps[i]).leads(states[i], states[i + 1])
            &&& steps[i].in_order(states[i], clock[i])
            &&& clock[i + 1] == steps[i].time(clock[i])
        }
}

/// Whether the ticket in `blob` is remembered as spent for as long as it lasts.
spec fn remembered(s: IssuerState, blob: Seq<u8>, until: u64, now: u64) -> bool {
    now <= until ==> s.consumed.contains_key(nonce_of(blob)) && s.consumed[nonce_of(blob)] >= until
}

/// Whether what the issuer opens `blob` to is the ticket `t`, if it is anything, now
/// and after the next key.
spec fn opens_only_to(s: IssuerState, blob: Seq<u8>, t: TicketFields) -> bool {
    &&& opened_under(s.key, blob) is None || opened_under(s.key, blob) == Some(t.bytes())
    &&& s.opens(blob) is None || s.opens(blob) == Some(t.bytes())
}

proof fn lemma_remembered(
    states: Seq<IssuerState>,
    steps: Seq<IssuerStep>,
    clock: Seq<u64>,
    blob: Seq<u8>,
    until: u64,
    i: int,
)
    requires
        issuer_runs(states, steps, clock),
        remembered(states[0], blob, until, clock[0]),
        0 <= i < states.len(),
    ensures
        remembered(states[i], blob, until, clock[i]),
    decreases i,
{
    if i > 0 {
        lemma_remembered(states, steps, clock, blob, until, i - 1);
        let before = states[i - 1];
        match steps[i - 1] {
            IssuerStep::Rotate { key: _ } => {},
            IssuerStep::Present { blob: other, now } => {
                let live = still_valid(before.consumed, now);
                assert(now <= until ==> live.contains_key(nonce_of(blob)));
                assert(before.presented(other, now, states[i]));
            },
        }
    }
}

proof fn lemma_opens_only_to(
    states: Seq<IssuerState>,
    steps: Seq<IssuerStep>,
    clock: Seq<u64>,
    blob: Seq<u8>,
    t: TicketFields,
    i: int,
)
    requires
        issuer_runs(states, steps, clock),
        forall|j: int| 0 <= j < steps.len() ==> (#[trigger] steps[j]).keeps_closed(blob),
        opens_only_to(states[0], blob, t),
        0 <= i < states.len(),
    ensures
        opens_only_to(states[i], blob, t),
    decreases i,
{
    if i > 0 {
        lemma_opens_only_to(states, steps, clock, blob, t, i - 1);
        assert(steps[i - 1].keeps_closed(blob));
    }
}

/// A ticket is redeemed once. Presented within its life, the ticket that was issued
/// at one moment gives the fields that were put into it, lasting from that moment
/// for the life of a ticket. From then on it gives nothing as long as it would have
/// lasted, whatever other tickets are presented and however often the key is
/// replaced. It gives nothing after that either, where no new key opens it by chance.
pub proof fn a_ticket_is_redeemed_once(
    issued: u64,
    session_id: Seq<u8>,
    peer_id: Seq<u8>,
    instance: Seq<u8>,
    tx_key: Seq<u8>,
    rx_key: Seq<u8>,
    blob: Seq<u8>,
    first: IssuerState,
    now: u64,
    states: Seq<IssuerState>,
    steps: Seq<IssuerStep>,
    clock: Seq<u64>,
)
    requires
        issued_ticket(issued, session_id, peer_id, instance, tx_key, rx_key).sized(),
        is_sealed_ticket(
            first.key,
            blob,
            issued_ticket(issued, session_id, peer_id, instance, tx_key, rx_key),
        ),
        !first.consumed.contains_key(nonce_of(blob)),
        issued <= now <= issued + SESSION_TICKET_TTL_SECS,
        issuer_runs(states, steps, clock),
        first.presented(blob, now, states[0]),
        clock[0] == now,
    ensures
        first.redeems(blob, now) == Some(
            issued_ticket(issued, session_id, peer_id, instance, tx_key, rx_key),
        ),
        issued + SESSION_TICKET_TTL_SECS <= u64::MAX ==> first.redeems(blob, now)->0.valid_until
            == issued + SESSION_TICKET_TTL_SECS,
        forall|i: int, later: u64|
            0 <= i < states.len() && clock[i] <= later <= later_by(issued, SESSION_TICKET_TTL_SECS)
                ==> (#[trigger] states[i].redeems(blob, later)) is None,
        (forall|j: int| 0 <= j < steps.len() ==> (#[trigger] steps[j]).keeps_closed(blob)) ==> (
        forall|i: int, later: u64|
            0 <= i < states.len() && clock[i] <= later ==> (#[trigger] states[i].redeems(
                blob,
                later,
            )) is None),
{
    let t = issued_ticket(issued, session_id, peer_id, instance, tx_key, rx_key);
    issued_ticket_redeems(first, blob, t, now);
    ticket_reads_back(t);
    assert(remembered(states[0], blob, t.valid_until, now));
    assert(opens_only_to(states[0], blob, t));
    assert forall|i: int, later: u64|
        0 <= i < states.len() && clock[i] <= later <= t.valid_until implies (
    #[trigger] states[i].redeems(blob, later)) is None by {
        lemma_remembered(states, steps, clock, blob, t.valid_until, i);
    }
    if forall|j: int| 0 <= j < steps.len() ==> (#[trigger] steps[j]).keeps_closed(blob) {
        assert forall|i: int, later: u64| 0 <= i < states.len() && clock[i] <= later implies (
        #[trigger] states[i].redeems(blob, later)) is None by {
            lemma_opens_only_to(states, steps, clock, blob, t, i);
        }
    }
}

/// A sealed ticket of another length, one that neither key opens and one that is not
/// current are refused and change nothing. Whatever is refused adds nothing to the
/// spent tickets.
pub proof fn a_refused_ticket_spends_nothing(
    s: IssuerState,
    after: IssuerState,
    blob: Seq<u8>,
    now: u64,
)
    requires
        s.presented(blob, now, after),
    ensures
        blob.len() != SESSION_TICKET_ENCRYPTED_SIZE ==> s.redeems(blob, now) is None && after == s,
        s.opens(blob) is None ==> s.redeems(blob, now) is None && after == s,
        s.genuine(blob, now) is None ==> s.redeems(blob, now) is None && after == s,
        s.redeems(blob, now) is None ==> after.consumed.submap_of(s.consumed),
{
}

/// A ticket outlives the replacement of its key by one: it is redeemed under the
/// next key, and no longer under the one after that.
pub proof fn a_ticket_outlives_its_key_by_one(
    s: IssuerState,
    second: Seq<u8>,
    third: Seq<u8>,
    blob: Seq<u8>,
    t: TicketFields,
    now: u64,
)
    requires
        t.sized(),
        is_sealed_ticket(s.key, blob, t),
        opened_under(second, blob) is None,
        opened_under(third, blob) is None,
        t.current(now),
        !s.consumed.contains_key(nonce_of(blob)),
    ensures
        s.redeems(blob, now) == Some(t),
        s.rotated(second).redeems(blob, now) == Some(t),
        s.rotated(second).rotated(third).redeems(blob, now) is None,
        forall|after: IssuerState|
            s.rotated(second).rotated(third).presented(blob, now, after) ==> after == s.rotated(
                second,
            ).rotated(third),
{
    issued_ticket_redeems(s, blob, t, now);
    ticket_survives_one_rotation(s, second, blob, t, now);
    key_is_gone_after_two_rotations(s, second, third, blob, now);
}

/// Every field of a ticket is what was given for it, for whichever instance of the peer,
/// and the ticket lasts for an hour from the moment at which it is issued.
pub proof fn a_ticket_holds_what_was_given(
    now: u64,
    session_id: [u8; 32],
    peer_id: [u8; 32],
    instance: [u8; 16],
    tx_key: [u8; 32],
    rx_key: [u8; 32],
    t: SessionTicket,
)
    requires
        call_ensures(
            TicketIssuer::ticket_at,
            (now, session_id, peer_id, instance, tx_key, rx_key),
            t,
        ),
    ensures
        t.session_id@ == session_id@,
        t.peer_id@ == peer_id@,
        t.peer_instance_id@ == instance@,
        t.tx_key@ == tx_key@,
        t.rx_key@ == rx_key@,
        t.issued_at == now,
        now + 3600 <= u64::MAX ==> t.valid_until == now + 3600,
        now + 3600 > u64::MAX ==> t.valid_until == u64::MAX,
{
    assert(t@.session_id == t.session_id@);
    assert(t@.tx_key == t.tx_key@);
}

/// What was issued is what is redeemed: while a ticket lasts and is unspent, presenting
/// it gives back the session, the peer and its instance, and each key as the key of
/// the direction that it was given for.
pub proof fn a_redeemed_ticket_is_the_issued_one(
    issuer: &TicketIssuer,
    session_id: [u8; 32],
    peer_id: [u8; 32],
    instance: [u8; 16],
    tx_key: [u8; 32],
    rx_key: [u8; 32],
    blob: Vec<u8>,
    redeemer: &mut TicketIssuer,
    presented: &[u8],
    now: u64,
    r: Option<SessionTicket>,
) -> (issued: u64)
    requires
        call_ensures(
            TicketIssuer::issue_for_instance,
            (issuer, session_id, peer_id, instance, tx_key, rx_key),
            blob,
        ),
        presented@ == blob@,
        old(redeemer)@.key == issuer@.key,
        !old(redeemer)@.consumed.contains_key(blob@.subrange(0, 12)),
        call_ensures(TicketIssuer::decrypt_at, (redeemer, presented, now), r),
    ensures
        blob@.len() == 188,
        r is Some ==> {
            &&& r->0.session_id@ == session_id@
            &&& r->0.peer_id@ == peer_id@
            &&& r->0.peer_instance_id@ == instance@
            &&& r->0.tx_key@ == tx_key@
            &&& r->0.rx_key@ == rx_key@
            &&& r->0.valid_until == r->0.issued_at + 3600
        },
        r is Some <==> issued <= now + 60 && now <= issued + 3600,
        r is Some ==> r->0.issued_at == issued,
{
    let t = choose|t: TicketFields| #[trigger]
        is_sealed_ticket(issuer@.key, blob@, t) && t.session_id == session_id@ && t.peer_id
            == peer_id@ && t.tx_key == tx_key@ && t.rx_key == rx_key@ && t.peer_instance_id
            == instance@ && t.valid_until - t.issued_at == 3600;
    ticket_reads_back(t);
    let issued = t.issued_at;
    assert(old(redeemer)@.opens(blob@) == Some(t.bytes()));
    if r is Some {
        assert(r->0@.session_id == r->0.session_id@);
        assert(r->0@ == t);
    }
    issued
}

/// A ticket for a peer whose instance is not known is one for no instance.
pub proof fn an_unbound_ticket_names_no_instance(
    issuer: &TicketIssuer,
    session_id: [u8; 32],
    peer_id: [u8; 32],
    tx_key: [u8; 32],
    rx_key: [u8; 32],
    blob: Vec<u8>,
    redeemer: &mut TicketIssuer,
    presented: &[u8],
    now: u64,
    r: Option<SessionTicket>,
)
    requires
        call_ensures(TicketIssuer::issue, (issuer, session_id, peer_id, tx_key, rx_key), blob),
        presented@ == blob@,
        old(redeemer)@.key == issuer@.key,
        call_ensures(TicketIssuer::decrypt_at, (redeemer, presented, now), r),
        r is Some,
    ensures
        r->0.session_id@ == session_id@,
        r->0.peer_id@ == peer_id@,
        r->0.peer_instance_id@ == Seq::new(16, |i: int| 0u8),
        r->0.tx_key@ == tx_key@,
        r->0.rx_key@ == rx_key@,
        r->0.valid_until == r->0.issued_at + 3600,
{
    let t = choose|t: TicketFields| #[trigger]
        is_sealed_ticket(issuer@.key, blob@, t) && t.session_id == session_id@ && t.peer_id
            == peer_id@ && t.tx_key == tx_key@ && t.rx_key == rx_key@ && t.peer_instance_id
            == crate::bytes::zeros(16) && t.valid_until - t.issued_at == 3600;
    ticket_reads_back(t);
    assert(r->0@ == t);
    assert(r->0@.session_id == r->0.session_id@);
}

/// What is redeemed opens under one of the issuer's two keys, was not spent, is not from
/// more than a minute ahead and has not run out; and what is all of this is redeemed.
/// Each field is read from its own place.
pub proof fn what_redeems_a_ticket(
    i: &mut TicketIssuer,
    blob: &[u8],
    now: u64,
    r: Option<SessionTicket>,
    plaintext: Seq<u8>,
)
    requires
        call_ensures(TicketIssuer::decrypt_at, (i, blob, now), r),
        now <= u64::MAX - 60,
        ({
            let nonce = blob@.subrange(0, 12);
            let sealed = blob@.subrange(12, blob@.len() as int);
            let first = recovered(old(i)@.key, nonce, ticket_aad(), sealed);
            let second = recovered(old(i)@.prev_key->0, nonce, ticket_aad(), sealed);
            first == Some(plaintext) || (first is None && old(i)@.prev_key is Some && second
                == Some(plaintext))
        }),
    ensures
        ({
            let nonce = blob@.subrange(0, 12);
            let issued = of_be64(plaintext.subrange(128, 136));
            let until = of_be64(plaintext.subrange(136, 144));
            let spent = old(i)@.consumed.contains_key(nonce) && now <= old(i)@.consumed[nonce];
            &&& r is Some <==> blob@.len() == 188 && plaintext.len() == 160 && issued <= now + 60
                && now <= until && !spent
            &&& r is Some ==> {
                &&& r->0.session_id@ == plaintext.subrange(0, 32)
                &&& r->0.peer_id@ == plaintext.subrange(32, 64)
                &&& r->0.tx_key@ == plaintext.subrange(64, 96)
                &&& r->0.rx_key@ == plaintext.subrange(96, 128)
                &&& r->0.issued_at == issued
                &&& r->0.valid_until == until
                &&& r->0.peer_instance_id@ == plaintext.subrange(144, 160)
                &&& final(i)@.consumed.contains_key(nonce)
                &&& final(i)@.consumed[nonce] == until
            }
            &&& final(i)@.key == old(i)@.key
            &&& final(i)@.prev_key == old(i)@.prev_key
        }),
{
    if r is Some {
        assert(r->0@.session_id == r->0.session_id@);
    }
}

/// A ticket that neither key opens is refused, and changes nothing.
pub proof fn a_foreign_ticket_is_refused(
    i: &mut TicketIssuer,
    blob: &[u8],
    now: u64,
    r: Option<SessionTicket>,
)
    requires
        call_ensures(TicketIssuer::decrypt_at, (i, blob, now), r),
        ({
            let nonce = blob@.subrange(0, 12);
            let sealed = blob@.subrange(12, blob@.len() as int);
            &&& recovered(old(i)@.key, nonce, ticket_aad(), sealed) is None
            &&& old(i)@.prev_key is Some ==> recovered(
                old(i)@.prev_key->0,
                nonce,
                ticket_aad(),
                sealed,
            ) is None
        }),
    ensures
        r is None,
        final(i)@ == old(i)@,
{
}

/// A ticket that was redeemed is never redeemed again by the same issuer, at whatever
/// time it is presented next; and another that was spent stays spent as long as it
/// lasts, unless so many are remembered as can be.
pub proof fn no_ticket_is_redeemed_twice(
    first: &mut TicketIssuer,
    blob: &[u8],
    now: u64,
    r: Option<SessionTicket>,
    again: &mut TicketIssuer,
    later: u64,
    q: Option<SessionTicket>,
    other: Seq<u8>,
)
    requires
        call_ensures(TicketIssuer::decrypt_at, (first, blob, now), r),
        *old(again) == *final(first),
        call_ensures(TicketIssuer::decrypt_at, (again, blob, later), q),
        old(first)@.consumed.dom().finite(),
    ensures
        r is Some ==> q is None,
        ({
            let before = old(first)@.consumed;
            let after = final(first)@.consumed;
            before.contains_key(other) && now <= before[other] && before.len() < 8192 && other
                != blob@.subrange(0, 12) ==> after.contains_key(other) && after[other]
                == before[other]
        }),
        r is None ==> final(first)@.consumed.submap_of(old(first)@.consumed),
        final(first)@.consumed.len() <= 8192,
{
    let s = old(first)@;
    let live = still_valid(s.consumed, now);
    assert(live.dom().subset_of(s.consumed.dom()));
    vstd::set_lib::lemma_len_subset(live.dom(), s.consumed.dom());
    if r is Some {
        spent_ticket_stays_spent(s, final(first)@, blob@, now, later, Seq::empty());
    }
}

/// A replaced key reads tickets until the next replacement: then it is gone.
pub proof fn a_key_reads_for_one_more_rotation(
    first: &mut TicketIssuer,
    second: &mut TicketIssuer,
    a: TicketKey,
    b: TicketKey,
)
    requires
        call_ensures(TicketIssuer::rotate, (first, a), ()),
        *old(second) == *final(first),
        call_ensures(TicketIssuer::rotate, (second, b), ()),
    ensures
        final(first)@.key == a@,
        final(first)@.prev_key == Some(old(first)@.key),
        final(first)@.consumed == old(first)@.consumed,
        final(second)@.key == b@,
        final(second)@.prev_key == Some(a@),
        final(second)@.consumed == old(first)@.consumed,
{
}

/// A sealed ticket is the nonce and, behind it, what the AEAD makes of the ticket under
/// the issuing key; nothing of it is in the clear but the nonce.
pub proof fn a_sealed_ticket_is_nonce_and_ciphertext(
    i: &TicketIssuer,
    t: &SessionTicket,
    nonce: &[u8; 12],
    blob: Vec<u8>,
)
    requires
        call_ensures(TicketIssuer::encrypt_with_nonce, (i, t, nonce), blob),
    ensures
        blob@.len() == 188,
        blob@.subrange(0, 12) == nonce@,
        blob@.subrange(12, 188) == aead_sealed(
            i@.key,
            nonce@,
            ticket_aad(),
            t.session_id@ + t.peer_id@ + t.tx_key@ + t.rx_key@ + be64(t.issued_at) + be64(
                t.valid_until,
            ) + t.peer_instance_id@,
        ),
{
    assert(blob@.subrange(12, 188) =~= aead_sealed(i@.key, nonce@, ticket_aad(), t@.bytes()));
}

/// Decoding the bytes of a ticket gives the ticket back, field by field, and bytes of
/// another length are no ticket.
pub proof fn tickets_survive_encoding(
    t: &SessionTicket,
    v: Vec<u8>,
    s: &[u8],
    r: Option<SessionTicket>,
)
    requires
        call_ensures(SessionTicket::encode, (t,), v),
        call_ensures(SessionTicket::decode, (s,), r),
    ensures
        s@.len() != 160 ==> r is None,
        s@ == v@ ==> {
            &&& r is Some
            &&& r->0.session_id@ == t.session_id@
            &&& r->0.peer_id@ == t.peer_id@
            &&& r->0.tx_key@ == t.tx_key@
            &&& r->0.rx_key@ == t.rx_key@
            &&& r->0.issued_at == t.issued_at
            &&& r->0.valid_until == t.valid_until
            &&& r->0.peer_instance_id@ == t.peer_instance_id@
        },
{
    if s@ == v@ {
        ticket_reads_back(t@);
        assert(r->0@ == t@);
        assert(t@.session_id == t.session_id@);
        assert(r->0@.session_id == r->0.session_id@);
    }
}

/// What is authenticated with every ticket spells the name and version of its form.
pub proof fn tickets_are_marked(i: int)
    requires
        0 <= i < 14,
    ensures
        ticket_aad().len() == 14,
        ticket_aad()[i] == "ovl1-ticket-v1"@[i] as u8,
{
    reveal_strlit("ovl1-ticket-v1");
}

/// The fields of a ticket stand one behind another, each of them whole.
pub proof fn how_a_ticket_is_laid_out(
    t: &SessionTicket,
    v: Vec<u8>,
    s: &[u8],
    r: Option<SessionTicket>,
)
    requires
        call_ensures(SessionTicket::encode, (t,), v),
        call_ensures(SessionTicket::decode, (s,), r),
    ensures
        v@.len() == 160,
        v@.subrange(0, 32) == t.session_id@,
        v@.subrange(32, 64) == t.peer_id@,
        v@.subrange(64, 96) == t.tx_key@,
        v@.subrange(96, 128) == t.rx_key@,
        of_be64(v@.subrange(128, 136)) == t.issued_at,
        of_be64(v@.subrange(136, 144)) == t.valid_until,
        v@.subrange(144, 160) == t.peer_instance_id@,
        r is Some <==> s@.len() == 160,
        r is Some ==> {
            &&& r->0.session_id@ == s@.subrange(0, 32)
            &&& r->0.peer_id@ == s@.subrange(32, 64)
            &&& r->0.tx_key@ == s@.subrange(64, 96)
            &&& r->0.rx_key@ == s@.subrange(96, 128)
            &&& r->0.issued_at == of_be64(s@.subrange(128, 136))
            &&& r->0.valid_until == of_be64(s@.subrange(136, 144))
            &&& r->0.peer_instance_id@ == s@.subrange(144, 160)
        },
{
    ticket_reads_back(t@);
    crate::bytes::lemma_be64(t.issued_at);
    crate::bytes::lemma_be64(t.valid_until);
    assert(v@.subrange(0, 32) =~= t.session_id@);
    assert(v@.subrange(32, 64) =~= t.peer_id@);
    assert(v@.subrange(64, 96) =~= t.tx_key@);
    assert(v@.subrange(96, 128) =~= t.rx_key@);
    assert(v@.subrange(128, 136) =~= be64(t.issued_at));
    assert(v@.subrange(136, 144) =~= be64(t.valid_until));
    assert(v@.subrange(144, 160) =~= t.peer_instance_id@);
    if r is Some {
        assert(r->0@.session_id == r->0.session_id@);
    }
}

/// Of the spent tickets that are still good none is forgotten unless 8192 of them are
/// remembered, and then one that runs out no later than any other.
pub proof fn the_ticket_that_runs_out_first_is_forgotten(
    i: &mut TicketIssuer,
    blob: &[u8],
    now: u64,
    r: Option<SessionTicket>,
    gone: Seq<u8>,
    kept: Seq<u8>,
)
    requires
        call_ensures(TicketIssuer::decrypt_at, (i, blob, now), r),
        old(i)@.consumed.dom().finite(),
        old(i)@.consumed.contains_key(gone),
        now <= old(i)@.consumed[gone],
        !final(i)@.consumed.contains_key(gone),
        old(i)@.consumed.contains_key(kept),
        now <= old(i)@.consumed[kept],
    ensures
        r is Some,
        old(i)@.consumed.len() >= 8192,
        old(i)@.consumed[gone] <= old(i)@.consumed[kept],
        kept != gone && kept != blob@.subrange(0, 12) ==> final(i)@.consumed.contains_key(kept)
            && final(i)@.consumed[kept] == old(i)@.consumed[kept],
{
    let s = old(i)@;
    let live = still_valid(s.consumed, now);
    assert(live.dom().subset_of(s.consumed.dom()));
    vstd::set_lib::lemma_len_subset(live.dom(), s.consumed.dom());
    assert(live.contains_key(gone));
    assert(live.contains_key(kept));
}

} // verus!
