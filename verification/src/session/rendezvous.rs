//! Requests of a peer for an endpoint that exists for a short time only.

use crate::session::messages::SessionMsg;
use crate::session::rekey_arms::{build_session_frame, session_frame};
use crate::session::tx_registry::{takes, SessionTxRegistry, INTERACTIVE};
use vstd::prelude::*;

verus! {

/// Why a request is refused, with what was found where there is something to tell.
#[derive(Clone, Debug, PartialEq, Eq)]
pub enum RejectReason {
    Decode(String),
    Verify(String),
    NotOurTarget,
    RateLimited,
    ConcurrencyExhausted,
    BindFailed(String),
}

impl RejectReason {
    /// The name of the reason in logs.
    pub open spec fn name(self) -> Seq<char> {
        match self {
            RejectReason::Decode(_) => "decode"@,
            RejectReason::Verify(_) => "verify"@,
            RejectReason::NotOurTarget => "not_our_target"@,
            RejectReason::RateLimited => "rate_limited"@,
            RejectReason::ConcurrencyExhausted => "concurrency_exhausted"@,
            RejectReason::BindFailed(_) => "bind_failed"@,
        }
    }

    /// The name of the reason in logs.
    pub fn as_str(&self) -> (s: &'static str)
        ensures
            s@ == self.name(),
    {
        match self {
            RejectReason::Decode(_) => "decode",
            RejectReason::Verify(_) => "verify",
            RejectReason::NotOurTarget => "not_our_target",
            RejectReason::RateLimited => "rate_limited",
            RejectReason::ConcurrencyExhausted => "concurrency_exhausted",
            RejectReason::BindFailed(_) => "bind_failed",
        }
    }
}

/// What the controller made of a request.
#[derive(Debug)]
pub enum RequestOutcome {
    /// An endpoint was opened; this is the signed answer.
    Granted { response: Vec<u8>, port: u16 },
    /// The request is refused.
    Rejected(RejectReason),
}

/// What became of a request.
#[derive(Clone, Debug, PartialEq, Eq)]
pub enum RendezvousResult {
    /// Nobody handles requests here: the request is dropped.
    NoController,
    /// The answer was queued for the peer.
    Sent,
    /// The answer could not be queued.
    SendFailed,
    /// There are no queues to send on.
    NoRegistry,
    /// The request was refused, and nothing is sent.
    Refused(RejectReason),
}

/// Handles a peer's request, given what the controller made of it, if there is
/// one. Only a granted request is answered; a refusal costs the requester's peer
/// nothing to send.
pub fn handle_rendezvous_request_arm(
    peer_id: &[u8; 32],
    registry: &mut Option<SessionTxRegistry>,
    outcome: Option<RequestOutcome>,
    now: u64,
) -> (r: RendezvousResult)
    requires
        outcome matches Some(RequestOutcome::Granted { response, .. }) ==> response@.len()
            <= u32::MAX,
    ensures
        (*final(registry)) is Some == (*old(registry)) is Some,
        match outcome {
            None => {
                &&& r == RendezvousResult::NoController
                &&& *final(registry) == *old(registry)
            },
            Some(RequestOutcome::Rejected(why)) => {
                &&& r == RendezvousResult::Refused(why)
                &&& *final(registry) == *old(registry)
            },
            Some(RequestOutcome::Granted { response, port }) => match *old(registry) {
                None => r == RendezvousResult::NoRegistry,
                Some(reg) => {
                    let frame = session_frame(
                        SessionMsg::EphemeralEndpointResponse,
                        response@,
                    );
                    &&& (*final(registry))->0@ == reg@.sent_to(peer_id@, INTERACTIVE, frame, now)
                    &&& r == if reg@.serves(peer_id@) && takes(
                        reg@.sessions[peer_id@],
                        reg@.capacity,
                    ) {
                        RendezvousResult::Sent
                    } else {
                        RendezvousResult::SendFailed
                    }
                },
            },
        },
{
    match outcome {
        None => RendezvousResult::NoController,
        Some(RequestOutcome::Rejected(why)) => RendezvousResult::Refused(why),
        Some(RequestOutcome::Granted { response, port: _ }) => {
            let frame: Vec<u8> = build_session_frame(
                SessionMsg::EphemeralEndpointResponse,
                response.as_slice(),
            );
            match registry {
                None => RendezvousResult::NoRegistry,
                Some(reg) => {
                    if reg.send_to(peer_id, INTERACTIVE, frame, now) {
                        RendezvousResult::Sent
                    } else {
                        RendezvousResult::SendFailed
                    }
                },
            }
        },
    }
}

/// Only a granted request is answered, to the peer that made it, in a frame of its own
/// kind; a refusal or the want of a controller sends nothing to anybody.
pub proof fn only_granted_requests_are_answered(
    peer: &[u8; 32],
    registry: &mut Option<SessionTxRegistry>,
    outcome: Option<RequestOutcome>,
    now: u64,
    r: RendezvousResult,
    other: Seq<u8>,
)
    requires
        other != peer@,
        call_ensures(handle_rendezvous_request_arm, (peer, registry, outcome, now), r),
    ensures
        outcome is None ==> r == RendezvousResult::NoController && *final(registry) == *old(registry),
        outcome is Some && outcome->0 is Rejected ==> r == RendezvousResult::Refused(
            outcome->0->Rejected_0,
        ) && *final(registry) == *old(registry),
        outcome is Some && outcome->0 is Granted && *old(registry) is None ==> r
            == RendezvousResult::NoRegistry,
        outcome is Some && outcome->0 is Granted && *old(registry) is Some ==> {
            let a = (*old(registry))->0@;
            let b = (*final(registry))->0@;
            let q = a.sessions[peer@];
            let takes = a.sessions.contains_key(peer@) && !q.closed && q.queue.len() < a.capacity;
            &&& r == RendezvousResult::Sent <==> takes
            &&& r == RendezvousResult::SendFailed <==> !takes
            &&& takes ==> b.sessions[peer@].queue == q.queue.push(
                (
                    1u8,
                    session_frame(
                        SessionMsg::EphemeralEndpointResponse,
                        outcome->0->response@,
                    ),
                ),
            )
            &&& !takes ==> b.sessions == a.sessions
            &&& b.sessions.contains_key(other) == a.sessions.contains_key(other)
            &&& a.sessions.contains_key(other) ==> b.sessions[other] == a.sessions[other]
        },
{
}

} // verus!
