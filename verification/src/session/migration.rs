//! A peer's notice that it can be reached at another address.

use crate::bytes::{array32_at, same_bytes};
use crate::table::Table;
use crate::text::{decimal, decimal_of};
use base64::Engine;
use vstd::prelude::*;
use vstd::string::*;

verus! {

/// A notice that was decoded: who moved and to which address.
pub struct TransportMigrationNotify {
    pub node_id: [u8; 32],
    pub new_transport: String,
    pub new_expiry_unix: u64,
}

/// What the standard base64 decoder makes of a text: the bytes, or what is wrong
/// with it in words.
pub uninterp spec fn base64_decoded(text: Seq<char>) -> Result<Seq<u8>, Seq<char>>;

/// Calls `Engine::decode` of `base64::engine::general_purpose::STANDARD`, and
/// `to_string` on its error. The result is named, not described.
#[verifier::external_body]
fn decode_base64(text: &str) -> (r: Result<Vec<u8>, String>)
    ensures
        match base64_decoded(text@) {
            Ok(b) => r matches Ok(v) && v@ == b,
            Err(e) => r matches Err(s) && s@ == e,
        },
{
    base64::engine::general_purpose::STANDARD.decode(text).map_err(|e| e.to_string())
}

/// What to do with a notice.
pub enum MigrationStep {
    /// The peer has violated the protocol, for the given reason.
    Violation(String),
    /// The notice cannot be checked and is dropped.
    Drop,
    /// The notice is to be checked under this public key.
    Verify([u8; 32]),
}

/// The step for a notice of the peer itself, given its decoded public key.
pub open spec fn step_for_key(key: Result<Seq<u8>, Seq<char>>, step: MigrationStep) -> bool {
    match key {
        Err(e) => step matches MigrationStep::Violation(s) && s@
            == "TransportMigrationNotify: peer_pubkey base64: "@ + e,
        Ok(b) => if b.len() == 32 {
            step matches MigrationStep::Verify(k) && k@ == b
        } else {
            step matches MigrationStep::Violation(s) && s@
                == "TransportMigrationNotify: peer_pubkey len="@ + decimal_of(b.len()) + " (need 32)"@
        },
    }
}

/// The step for a notice of the peer itself, given its decoded public key.
pub fn check_pubkey(key: &Result<Vec<u8>, String>) -> (step: MigrationStep)
    ensures
        step_for_key(
            match *key {
                Ok(b) => Ok(b@),
                Err(e) => Err(e@),
            },
            step,
        ),
{
    match key {
        Err(e) => {
            let mut s: String = String::from_str("TransportMigrationNotify: peer_pubkey base64: ");
            s.append(e.as_str());
            MigrationStep::Violation(s)
        },
        Ok(b) => {
            if b.len() == 32 {
                let k: [u8; 32] = array32_at(b.as_slice(), 0);
                assert(k@ =~= b@);
                MigrationStep::Verify(k)
            } else {
                let mut s: String = String::from_str("TransportMigrationNotify: peer_pubkey len=");
                let n: String = decimal(b.len() as u128);
                s.append(n.as_str());
                s.append(" (need 32)");
                MigrationStep::Violation(s)
            }
        },
    }
}

/// Handles a notice of the peer, decoded or with what is wrong with it. A peer
/// speaks for itself only. Without the peer's public key there is nothing to check
/// the notice under; otherwise the key decides.
pub fn handle_transport_migration_notify_arm(
    peer_id: &[u8; 32],
    peer_public_key: &Option<String>,
    notify: &Result<TransportMigrationNotify, String>,
) -> (step: MigrationStep)
    ensures
        match *notify {
            Err(e) => step matches MigrationStep::Violation(s) && s@
                == "bad TransportMigrationNotify: "@ + e@,
            Ok(n) => if n.node_id@ != peer_id@ {
                step matches MigrationStep::Violation(s) && s@
                    == "TransportMigrationNotify: node_id != session peer_id"@
            } else {
                match *peer_public_key {
                    None => step is Drop,
                    Some(k) => step_for_key(base64_decoded(k@), step),
                }
            },
        },
{
    match notify {
        Err(e) => {
            let mut s: String = String::from_str("bad TransportMigrationNotify: ");
            s.append(e.as_str());
            MigrationStep::Violation(s)
        },
        Ok(n) => {
            if !same_bytes(n.node_id.as_slice(), peer_id.as_slice()) {
                return MigrationStep::Violation(
                    String::from_str("TransportMigrationNotify: node_id != session peer_id"),
                );
            }
            match peer_public_key {
                None => MigrationStep::Drop,
                Some(k) => {
                    let decoded: Result<Vec<u8>, String> = decode_base64(k.as_str());
                    check_pubkey(&decoded)
                },
            }
        },
    }
}

/// Takes over the new address of a peer whose notice was checked. A notice that
/// did not hold up changes nothing.
pub fn apply_migration(
    addresses: &mut Table<String>,
    peer_id: &[u8; 32],
    notify: &TransportMigrationNotify,
    verified: bool,
) -> (applied: bool)
    ensures
        applied == verified,
        if verified {
            &&& final(addresses)@.contains_key(peer_id@)
            &&& final(addresses)@[peer_id@]@ == notify.new_transport@
            &&& final(addresses)@ == old(addresses)@.insert(
                peer_id@,
                final(addresses)@[peer_id@],
            )
        } else {
            *final(addresses) == *old(addresses)
        },
{
    if !verified {
        return false;
    }
    let _ = addresses.insert(peer_id.as_slice(), notify.new_transport.clone());
    true
}

/// What becomes of a notice: a peer speaks for itself only, a notice that cannot be
/// checked is dropped, and one that can is checked under the peer's own key of 32 bytes.
pub proof fn a_peer_speaks_for_itself(
    peer_id: &[u8; 32],
    key: &Option<String>,
    notify: &Result<TransportMigrationNotify, String>,
    step: MigrationStep,
)
    requires
        call_ensures(handle_transport_migration_notify_arm, (peer_id, key, notify), step),
    ensures
        *notify is Err ==> step is Violation,
        *notify is Ok && notify->Ok_0.node_id@ != peer_id@ ==> step is Violation,
        step is Drop <==> *notify is Ok && notify->Ok_0.node_id@ == peer_id@ && *key is None,
        step is Verify ==> {
            &&& *notify is Ok && notify->Ok_0.node_id@ == peer_id@
            &&& *key is Some && base64_decoded(key->0@) is Ok
            &&& step->Verify_0@ == base64_decoded(key->0@)->Ok_0
        },
        *notify is Ok && notify->Ok_0.node_id@ == peer_id@ && *key is Some && base64_decoded(
            key->0@,
        ) is Ok && base64_decoded(key->0@)->Ok_0.len() == 32 ==> step is Verify,
{
}

/// A key decides by its length alone.
pub proof fn a_key_has_32_bytes(key: &Result<Vec<u8>, String>, step: MigrationStep)
    requires
        call_ensures(check_pubkey, (key,), step),
    ensures
        step is Verify <==> *key is Ok && key->Ok_0@.len() == 32,
        step is Verify ==> step->Verify_0@ == key->Ok_0@,
        step is Violation <==> step !is Verify,
{
}

/// A notice that held up gives the peer its new address and nobody else one; any other
/// changes nothing.
pub proof fn a_checked_notice_moves_its_peer(
    addresses: &mut Table<String>,
    peer_id: &[u8; 32],
    notify: &TransportMigrationNotify,
    verified: bool,
    applied: bool,
    other: Seq<u8>,
)
    requires
        other != peer_id@,
        call_ensures(apply_migration, (addresses, peer_id, notify, verified), applied),
    ensures
        applied == verified,
        verified ==> final(addresses)@.contains_key(peer_id@) && final(addresses)@[peer_id@]@
            == notify.new_transport@,
        final(addresses)@.contains_key(other) == old(addresses)@.contains_key(other),
        old(addresses)@.contains_key(other) ==> final(addresses)@[other] == old(addresses)@[other],
        !verified ==> final(addresses)@ == old(addresses)@,
{
}

} // verus!
