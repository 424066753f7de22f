//! The short names under which a session's two ends appear in route messages.

use crate::bytes::{all_zero, zeros};
use vstd::prelude::*;

verus! {

/// The short names of a session's two ends, each with the node it stands for.
#[derive(Clone, Copy, Debug)]
pub struct SessionAliases {
    pub local_alias: [u8; 8],
    pub local_node_id: [u8; 32],
    pub remote_alias: [u8; 8],
    pub peer_id: [u8; 32],
}

/// The short names that were registered for a session, to be withdrawn when the
/// session ends.
#[derive(Clone, Copy, Debug)]
pub struct SessionAliasGuard {
    pub local_alias: [u8; 8],
    pub remote_alias: [u8; 8],
}

/// What to register for a session, and the guard that withdraws just that. A
/// session without an identifier, or whose peer is not known yet, gets none.
pub fn register_session_aliases_with_drop_guard(
    session_id: &[u8; 32],
    local_node_id: &[u8; 32],
    peer_id: &[u8; 32],
    local_alias: [u8; 8],
    remote_alias: [u8; 8],
) -> (r: Option<(SessionAliases, SessionAliasGuard)>)
    ensures
        r == if session_id@ == zeros(32) || peer_id@ == zeros(32) {
            None
        } else {
            Some(
                (
                    SessionAliases {
                        local_alias,
                        local_node_id: *local_node_id,
                        remote_alias,
                        peer_id: *peer_id,
                    },
                    SessionAliasGuard { local_alias, remote_alias },
                ),
            )
        },
{
    if all_zero(session_id.as_slice()) || all_zero(peer_id.as_slice()) {
        return None;
    }
    Some(
        (
            SessionAliases {
                local_alias,
                local_node_id: *local_node_id,
                remote_alias,
                peer_id: *peer_id,
            },
            SessionAliasGuard { local_alias, remote_alias },
        ),
    )
}

/// Names are registered exactly for a session with an identifier and a known peer, each
/// end under its own, and just those are withdrawn.
pub proof fn names_are_withdrawn_as_registered(
    session_id: &[u8; 32],
    local: &[u8; 32],
    peer: &[u8; 32],
    local_alias: [u8; 8],
    remote_alias: [u8; 8],
    r: Option<(SessionAliases, SessionAliasGuard)>,
    i: int,
    j: int,
)
    requires
        call_ensures(
            register_session_aliases_with_drop_guard,
            (session_id, local, peer, local_alias, remote_alias),
            r,
        ),
        0 <= i < 32,
        0 <= j < 32,
    ensures
        session_id@[i] != 0 && peer@[j] != 0 ==> r is Some,
        r is Some ==> session_id@ != zeros(32) && peer@ != zeros(32),
        r is Some ==> {
            let (a, g) = r->0;
            &&& a.local_alias == local_alias && a.local_node_id == *local
            &&& a.remote_alias == remote_alias && a.peer_id == *peer
            &&& g.local_alias == a.local_alias && g.remote_alias == a.remote_alias
        },
{
}

} // verus!
