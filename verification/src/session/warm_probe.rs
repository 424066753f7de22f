//! Moving a session to a connection that was made in advance.
//!
//! The peer is told on the session itself and acknowledges with the same nonce.
//! Then the session is announced on the new connection, the peer sends a fresh
//! challenge there, and only the answer to it, made with a key of the session,
//! lets the new connection take over.

use crate::bytes::{array32_at, same_bytes};
use crate::crypto::random_bytes;
use crate::session::frame::{decode_header, header_of, FrameHeader, HeaderError, MAX_FRAME_BODY};
use crate::session::handoff::HandoffAckWaiters;
use crate::session::messages::{FrameFamily, SessionMsg};
use crate::session::rekey_arms::{build_session_frame, session_frame};
use crate::session::tx_registry::INTERACTIVE;
use crate::time::Duration;
use vstd::prelude::*;
use vstd::string::*;

verus! {

/// Length in bytes of a challenge.
pub const HANDOFF_CHALLENGE_LEN: usize = 32;

/// Why a move failed.
#[derive(Debug)]
pub enum WarmProbeError {
    /// The task that makes the move has exited.
    ProbeGone,
    /// The new connection could not be made.
    Dial(String),
    /// The peer could not be told on the session.
    PrimarySendFailed,
    /// The peer did not answer in time.
    AckTimeout(Duration),
    /// The new connection failed.
    AttachWrite(String),
    /// The session has ended meanwhile.
    RunnerGone,
}

impl WarmProbeError {
    /// The failure in words.
    pub open spec fn words(self) -> Seq<char> {
        match self {
            WarmProbeError::ProbeGone => "probe task has exited"@,
            WarmProbeError::Dial(e) => "warm-probe dial failed: "@ + e@,
            WarmProbeError::PrimarySendFailed =>
                "HandoffInit send failed (no session_tx_registry entry for peer)"@,
            WarmProbeError::AckTimeout(d) => "HandoffAck timed out after "@ + d.words(),
            WarmProbeError::AttachWrite(e) => "HandoffAttach write failed: "@ + e@,
            WarmProbeError::RunnerGone =>
                "no active runner swap_tx for session_id \u{2014} session already closed"@,
        }
    }

    /// The failure in words.
    pub fn message(&self) -> (s: String)
        ensures
            s@ == self.words(),
    {
        match self {
            WarmProbeError::ProbeGone => String::from_str("probe task has exited"),
            WarmProbeError::Dial(e) => {
                let mut s: String = String::from_str("warm-probe dial failed: ");
                s.append(e.as_str());
                s
            },
            WarmProbeError::PrimarySendFailed => String::from_str(
                "HandoffInit send failed (no session_tx_registry entry for peer)",
            ),
            WarmProbeError::AckTimeout(d) => {
                let mut s: String = String::from_str("HandoffAck timed out after ");
                let t: String = d.text();
                s.append(t.as_str());
                s
            },
            WarmProbeError::AttachWrite(e) => {
                let mut s: String = String::from_str("HandoffAttach write failed: ");
                s.append(e.as_str());
                s
            },
            WarmProbeError::RunnerGone => String::from_str(
                "no active runner swap_tx for session_id \u{2014} session already closed",
            ),
        }
    }
}

/// Where a move stands.
#[derive(Clone, Copy, Debug)]
pub enum HandoffPhase {
    /// The announcement is being sent on the session.
    Announcing,
    /// The peer's acknowledgement is waited for.
    AwaitingAck,
    /// The session is being announced on the new connection.
    Attaching,
    /// The header of the challenge is waited for.
    AwaitingChallengeHeader,
    /// The challenge is waited for.
    AwaitingChallenge,
    /// The answer to the challenge is being computed.
    Answering([u8; 32]),
    /// The answer is being sent.
    SendingAnswer,
    /// The new connection is being handed to the session.
    HandingOver,
    /// The move is over.
    Finished,
}

/// What happened since the last step of a move.
#[derive(Debug)]
pub enum HandoffEvent {
    /// The announcement was queued on the session, or not.
    AnnouncementSent(bool),
    /// The peer acknowledged with this nonce.
    Acknowledged([u8; 32]),
    /// Nobody can deliver an acknowledgement any more.
    AckSenderGone,
    /// Nothing came in time.
    TimedOut,
    /// What was to be written was written.
    Written,
    /// Writing or reading on the new connection failed.
    ConnectionFailed(String),
    /// This header came on the new connection.
    HeaderRead(Vec<u8>),
    /// This body came on the new connection.
    BodyRead(Vec<u8>),
    /// The answer to the challenge.
    Answer([u8; 32]),
    /// The session took the new connection, or had ended.
    HandedOver(bool),
}

/// What to do next in a move.
#[derive(Debug)]
pub enum HandoffAction {
    /// Send this frame on the session, in this class.
    SendOnSession(u8, Vec<u8>),
    /// Wait for the acknowledgement, as long as is allowed.
    AwaitAck,
    /// Write this frame on the new connection.
    WriteOnNew(Vec<u8>),
    /// Read a header on the new connection.
    ReadHeader,
    /// Read a body of this many bytes on the new connection.
    ReadBody(usize),
    /// Compute the answer to this challenge.
    ComputeAnswer([u8; 32]),
    /// Hand the new connection to the session.
    HandOver,
    /// The session has moved.
    Done,
    /// The move has failed.
    Fail(WarmProbeError),
}

/// A move of a session to a connection that was made in advance.
#[derive(Debug)]
pub struct HandoffDriver {
    pub session_id: [u8; 32],
    pub nonce: [u8; 32],
    pub timeout: Duration,
    pub phase: HandoffPhase,
}

/// Whether a header announces a challenge.
pub open spec fn announces_challenge(h: FrameHeader) -> bool {
    &&& h.family == FrameFamily::Session.code_spec()
    &&& h.msg_type == SessionMsg::HandoffChallenge.code_spec()
    &&& h.body_len == HANDOFF_CHALLENGE_LEN
}

/// What is wrong with a header, in words.
pub open spec fn header_error_words(e: HeaderError) -> Seq<char> {
    match e {
        HeaderError::TooShort => "header too short"@,
        HeaderError::BadMagic => "bad magic"@,
        HeaderError::BadVersion => "unsupported version"@,
        HeaderError::BodyTooLarge => "body too large"@,
    }
}

fn header_error_text(e: HeaderError) -> (s: &'static str)
    ensures
        s@ == header_error_words(e),
{
    match e {
        HeaderError::TooShort => "header too short",
        HeaderError::BadMagic => "bad magic",
        HeaderError::BadVersion => "unsupported version",
        HeaderError::BodyTooLarge => "body too large",
    }
}

/// What to do with the header that came where a challenge is expected.
pub open spec fn challenge_header_action(bytes: Seq<u8>, a: HandoffAction) -> bool {
    match header_of(bytes, MAX_FRAME_BODY) {
        Err(e) => a matches HandoffAction::Fail(WarmProbeError::AttachWrite(s)) && s@
            == "bad challenge header: "@ + header_error_words(e),
        Ok(h) => if announces_challenge(h) {
            a == HandoffAction::ReadBody(HANDOFF_CHALLENGE_LEN)
        } else {
            a matches HandoffAction::Fail(WarmProbeError::AttachWrite(s)) && s@
                == "unexpected frame where HandoffChallenge expected"@
        },
    }
}

/// Decides on the header that came where a challenge is expected.
pub fn check_challenge_header(bytes: &[u8]) -> (a: HandoffAction)
    ensures
        challenge_header_action(bytes@, a),
{
    match decode_header(bytes) {
        Err(e) => {
            let mut s: String = String::from_str("bad challenge header: ");
            s.append(header_error_text(e));
            HandoffAction::Fail(WarmProbeError::AttachWrite(s))
        },
        Ok(h) => {
            if h.family == FrameFamily::Session.code() && h.msg_type
                == SessionMsg::HandoffChallenge.code() && h.body_len as usize
                == HANDOFF_CHALLENGE_LEN {
                HandoffAction::ReadBody(HANDOFF_CHALLENGE_LEN)
            } else {
                HandoffAction::Fail(
                    WarmProbeError::AttachWrite(
                        String::from_str("unexpected frame where HandoffChallenge expected"),
                    ),
                )
            }
        },
    }
}

/// A failure of the new connection, with what was being read, in words.
pub open spec fn connection_failed(a: HandoffAction, what: Seq<char>, e: Seq<char>) -> bool {
    a matches HandoffAction::Fail(WarmProbeError::AttachWrite(s)) && s@ == what + e
}

fn fail_connection(what: &str, e: &String) -> (a: HandoffAction)
    ensures
        connection_failed(a, what@, e@),
{
    let mut s: String = String::from_str(what);
    s.append(e.as_str());
    HandoffAction::Fail(WarmProbeError::AttachWrite(s))
}

impl HandoffDriver {
    /// The next phase and the action for an event.
    pub open spec fn steps(self, event: HandoffEvent, next: HandoffPhase, a: HandoffAction) -> bool {
        match (self.phase, event) {
            (HandoffPhase::Announcing, HandoffEvent::AnnouncementSent(sent)) => if sent {
                next is AwaitingAck && a is AwaitAck
            } else {
                next is Finished && a == HandoffAction::Fail(WarmProbeError::PrimarySendFailed)
            },
            (HandoffPhase::AwaitingAck, HandoffEvent::Acknowledged(n)) => if n@ == self.nonce@ {
                &&& next is Attaching
                &&& a matches HandoffAction::WriteOnNew(f) && f@ == session_frame(
                    SessionMsg::HandoffAttach,
                    self.session_id@,
                )
            } else {
                next is Finished && a == HandoffAction::Fail(
                    WarmProbeError::AckTimeout(self.timeout),
                )
            },
            (HandoffPhase::AwaitingAck, HandoffEvent::AckSenderGone) => next is Finished && a
                == HandoffAction::Fail(WarmProbeError::ProbeGone),
            (HandoffPhase::AwaitingAck, HandoffEvent::TimedOut) => next is Finished && a
                == HandoffAction::Fail(WarmProbeError::AckTimeout(self.timeout)),
            (HandoffPhase::Attaching, HandoffEvent::Written) => next is AwaitingChallengeHeader
                && a is ReadHeader,
            (HandoffPhase::Attaching, HandoffEvent::ConnectionFailed(e)) => next is Finished
                && connection_failed(a, Seq::empty(), e@),
            (HandoffPhase::AwaitingChallengeHeader, HandoffEvent::HeaderRead(b)) => {
                &&& challenge_header_action(b@, a)
                &&& if a is Fail {
                    next is Finished
                } else {
                    next is AwaitingChallenge
                }
            },
            (
                HandoffPhase::AwaitingChallengeHeader,
                HandoffEvent::ConnectionFailed(e),
            ) => next is Finished && connection_failed(a, "challenge header: "@, e@),
            (HandoffPhase::AwaitingChallengeHeader, HandoffEvent::TimedOut) => next is Finished && a
                == HandoffAction::Fail(WarmProbeError::AckTimeout(self.timeout)),
            (HandoffPhase::AwaitingChallenge, HandoffEvent::BodyRead(b)) => if b@.len()
                == HANDOFF_CHALLENGE_LEN {
                &&& next matches HandoffPhase::Answering(c) && c@ == b@
                &&& a matches HandoffAction::ComputeAnswer(c) && c@ == b@
            } else {
                next is Finished && (a matches HandoffAction::Fail(
                    WarmProbeError::AttachWrite(s),
                ) && s@ == "bad challenge: wrong length"@)
            },
            (HandoffPhase::AwaitingChallenge, HandoffEvent::ConnectionFailed(e)) => next is Finished
                && connection_failed(a, "challenge body: "@, e@),
            (HandoffPhase::AwaitingChallenge, HandoffEvent::TimedOut) => next is Finished && a
                == HandoffAction::Fail(WarmProbeError::AckTimeout(self.timeout)),
            (HandoffPhase::Answering(_), HandoffEvent::Answer(h)) => {
                &&& next is SendingAnswer
                &&& a matches HandoffAction::WriteOnNew(f) && f@ == session_frame(
                    SessionMsg::HandoffResponse,
                    h@,
                )
            },
            (HandoffPhase::SendingAnswer, HandoffEvent::Written) => next is HandingOver
                && a is HandOver,
            (HandoffPhase::SendingAnswer, HandoffEvent::ConnectionFailed(e)) => next is Finished
                && connection_failed(a, Seq::empty(), e@),
            (HandoffPhase::HandingOver, HandoffEvent::HandedOver(ok)) => next is Finished && a
                == if ok {
                HandoffAction::Done
            } else {
                HandoffAction::Fail(WarmProbeError::RunnerGone)
            },
            _ => next is Finished && a == HandoffAction::Fail(WarmProbeError::ProbeGone),
        }
    }

    /// Starts a move under a fresh nonce. The acknowledgement is waited for from
    /// before the announcement is sent, so that it cannot be missed.
    pub fn start(
        session_id: [u8; 32],
        nonce: [u8; 32],
        timeout: Duration,
        waiters: &mut HandoffAckWaiters,
    ) -> (r: (HandoffDriver, HandoffAction))
        ensures
            r.0.session_id == session_id,
            r.0.nonce == nonce,
            r.0.timeout == timeout,
            r.0.phase is Announcing,
            r.1 matches HandoffAction::SendOnSession(priority, f) && priority == INTERACTIVE && f@
                == session_frame(SessionMsg::HandoffInit, nonce@),
            final(waiters)@ == old(waiters)@.insert(session_id@, None),
    {
        waiters.register(&session_id);
        let frame: Vec<u8> = build_session_frame(SessionMsg::HandoffInit, nonce.as_slice());
        (
            HandoffDriver { session_id, nonce, timeout, phase: HandoffPhase::Announcing },
            HandoffAction::SendOnSession(INTERACTIVE, frame),
        )
    }

    /// Starts the move with a nonce drawn from the operating system. Which nonce is
    /// drawn is left open; the announcement carries it.
    pub fn begin(session_id: [u8; 32], timeout: Duration, waiters: &mut HandoffAckWaiters) -> (r: (
        HandoffDriver,
        HandoffAction,
    ))
        ensures
            r.0.session_id == session_id,
            r.0.timeout == timeout,
            r.0.phase is Announcing,
            r.1 matches HandoffAction::SendOnSession(priority, f) && priority == INTERACTIVE && f@
                == session_frame(SessionMsg::HandoffInit, r.0.nonce@),
            final(waiters)@ == old(waiters)@.insert(session_id@, None),
    {
        let drawn: Vec<u8> = random_bytes(32);
        let nonce: [u8; 32] = array32_at(drawn.as_slice(), 0);
        HandoffDriver::start(session_id, nonce, timeout, waiters)
    }

    /// Goes on with a move after an event. An event out of turn ends it.
    pub fn step(&mut self, event: HandoffEvent) -> (a: HandoffAction)
        ensures
            old(self).steps(event, final(self).phase, a),
            final(self).session_id == old(self).session_id,
            final(self).nonce == old(self).nonce,
            final(self).timeout == old(self).timeout,
    {
        let phase: HandoffPhase = self.phase;
        self.phase = HandoffPhase::Finished;
        match (phase, event) {
            (HandoffPhase::Announcing, HandoffEvent::AnnouncementSent(sent)) => {
                if sent {
                    self.phase = HandoffPhase::AwaitingAck;
                    HandoffAction::AwaitAck
                } else {
                    HandoffAction::Fail(WarmProbeError::PrimarySendFailed)
                }
            },
            (HandoffPhase::AwaitingAck, HandoffEvent::Acknowledged(n)) => {
                if same_bytes(n.as_slice(), self.nonce.as_slice()) {
                    self.phase = HandoffPhase::Attaching;
                    HandoffAction::WriteOnNew(
                        build_session_frame(
                            SessionMsg::HandoffAttach,
                            self.session_id.as_slice(),
                        ),
                    )
                } else {
                    HandoffAction::Fail(WarmProbeError::AckTimeout(self.timeout))
                }
            },
            (HandoffPhase::AwaitingAck, HandoffEvent::AckSenderGone) => HandoffAction::Fail(
                WarmProbeError::ProbeGone,
            ),
            (HandoffPhase::AwaitingAck, HandoffEvent::TimedOut) => HandoffAction::Fail(
                WarmProbeError::AckTimeout(self.timeout),
            ),
            (HandoffPhase::Attaching, HandoffEvent::Written) => {
                self.phase = HandoffPhase::AwaitingChallengeHeader;
                HandoffAction::ReadHeader
            },
            (HandoffPhase::Attaching, HandoffEvent::ConnectionFailed(e)) => {
                let s: String = e.clone();
                assert(s@ =~= Seq::<char>::empty() + e@);
                HandoffAction::Fail(WarmProbeError::AttachWrite(s))
            },
            (HandoffPhase::AwaitingChallengeHeader, HandoffEvent::HeaderRead(b)) => {
                let a: HandoffAction = check_challenge_header(b.as_slice());
                match &a {
                    HandoffAction::ReadBody(_) => {
                        self.phase = HandoffPhase::AwaitingChallenge;
                    },
                    _ => {},
                }
                a
            },
            (
                HandoffPhase::AwaitingChallengeHeader,
                HandoffEvent::ConnectionFailed(e),
            ) => fail_connection("challenge header: ", &e),
            (HandoffPhase::AwaitingChallengeHeader, HandoffEvent::TimedOut) => HandoffAction::Fail(
                WarmProbeError::AckTimeout(self.timeout),
            ),
            (HandoffPhase::AwaitingChallenge, HandoffEvent::BodyRead(b)) => {
                if b.len() == HANDOFF_CHALLENGE_LEN {
                    let c: [u8; 32] = array32_at(b.as_slice(), 0);
                    assert(c@ =~= b@);
                    self.phase = HandoffPhase::Answering(c);
                    HandoffAction::ComputeAnswer(c)
                } else {
                    HandoffAction::Fail(
                        WarmProbeError::AttachWrite(
                            String::from_str("bad challenge: wrong length"),
                        ),
                    )
                }
            },
            (HandoffPhase::AwaitingChallenge, HandoffEvent::ConnectionFailed(e)) => fail_connection(
                "challenge body: ",
                &e,
            ),
            (HandoffPhase::AwaitingChallenge, HandoffEvent::TimedOut) => HandoffAction::Fail(
                WarmProbeError::AckTimeout(self.timeout),
            ),
            (HandoffPhase::Answering(_), HandoffEvent::Answer(h)) => {
                self.phase = HandoffPhase::SendingAnswer;
                HandoffAction::WriteOnNew(
                    build_session_frame(SessionMsg::HandoffResponse, h.as_slice()),
                )
            },
            (HandoffPhase::SendingAnswer, HandoffEvent::Written) => {
                self.phase = HandoffPhase::HandingOver;
                HandoffAction::HandOver
            },
            (HandoffPhase::SendingAnswer, HandoffEvent::ConnectionFailed(e)) => {
                let s: String = e.clone();
                assert(s@ =~= Seq::<char>::empty() + e@);
                HandoffAction::Fail(WarmProbeError::AttachWrite(s))
            },
            (HandoffPhase::HandingOver, HandoffEvent::HandedOver(ok)) => {
                if ok {
                    HandoffAction::Done
                } else {
                    HandoffAction::Fail(WarmProbeError::RunnerGone)
                }
            },
            _ => HandoffAction::Fail(WarmProbeError::ProbeGone),
        }
    }
}

/// Whether a move can start: the connection that was to be made in advance is
/// there.
pub fn initiate_handoff(dial_error: &Option<String>, connected: bool) -> (r: Result<
    (),
    WarmProbeError,
>)
    ensures
        match *dial_error {
            Some(e) => r matches Err(WarmProbeError::Dial(s)) && s@ == e@,
            None => if connected {
                r is Ok
            } else {
                r matches Err(WarmProbeError::Dial(s)) && s@ == "warm stream absent"@
            },
        },
{
    match dial_error {
        Some(e) => Err(WarmProbeError::Dial(e.clone())),
        None => {
            if connected {
                Ok(())
            } else {
                Err(WarmProbeError::Dial(String::from_str("warm stream absent")))
            }
        },
    }
}

/// How far a move has come.
pub open spec fn progress(p: HandoffPhase) -> int {
    match p {
        HandoffPhase::Announcing => 0,
        HandoffPhase::AwaitingAck => 1,
        HandoffPhase::Attaching => 2,
        HandoffPhase::AwaitingChallengeHeader => 3,
        HandoffPhase::AwaitingChallenge => 4,
        HandoffPhase::Answering(_) => 5,
        HandoffPhase::SendingAnswer => 6,
        HandoffPhase::HandingOver => 7,
        HandoffPhase::Finished => 8,
    }
}

/// Every event brings a move one phase further or ends it, so that no phase can be
/// skipped: the new connection takes over only after the peer acknowledged with
/// our nonce and its challenge was answered.
pub proof fn no_phase_is_skipped(
    d: HandoffDriver,
    event: HandoffEvent,
    next: HandoffPhase,
    a: HandoffAction,
)
    requires
        d.steps(event, next, a),
    ensures
        next is Finished || progress(next) == progress(d.phase) + 1,
        a is Done ==> d.phase is HandingOver,
        a is HandOver ==> d.phase is SendingAnswer,
        next is Attaching ==> (event matches HandoffEvent::Acknowledged(n) && n@ == d.nonce@),
        next is SendingAnswer ==> d.phase is Answering,
        next is Answering ==> d.phase is AwaitingChallenge,
        a is Done || a is Fail <==> next is Finished,
{
}

/// An acknowledgement with another nonce ends the move.
pub proof fn foreign_acknowledgement_fails(
    d: HandoffDriver,
    nonce: [u8; 32],
    next: HandoffPhase,
    a: HandoffAction,
)
    requires
        d.phase is AwaitingAck,
        nonce@ != d.nonce@,
        d.steps(HandoffEvent::Acknowledged(nonce), next, a),
    ensures
        a == HandoffAction::Fail(WarmProbeError::AckTimeout(d.timeout)),
{
}

/// The course of a move that succeeds: the acknowledgement must carry the nonce of the
/// announcement, the session is announced on the new connection, its challenge has 32
/// bytes, the answer to it is written there, and only then is the connection handed over.
pub proof fn how_a_move_goes_on(d: &mut HandoffDriver, event: HandoffEvent, a: HandoffAction)
    requires
        call_ensures(HandoffDriver::step, (d, event), a),
    ensures
        a is AwaitAck <==> old(d).phase is Announcing && event == HandoffEvent::AnnouncementSent(
            true,
        ),
        final(d).phase is AwaitingAck <==> a is AwaitAck,
        final(d).phase is Attaching <==> old(d).phase is AwaitingAck && event is Acknowledged
            && event->Acknowledged_0@ == old(d).nonce@,
        final(d).phase is Attaching ==> a is WriteOnNew && a->WriteOnNew_0@ == session_frame(
            SessionMsg::HandoffAttach,
            old(d).session_id@,
        ),
        a is ReadHeader <==> old(d).phase is Attaching && event is Written,
        a is ReadHeader ==> final(d).phase is AwaitingChallengeHeader,
        a is ReadBody ==> old(d).phase is AwaitingChallengeHeader && event is HeaderRead
            && a->ReadBody_0 == 32 && final(d).phase is AwaitingChallenge,
        a is ComputeAnswer <==> old(d).phase is AwaitingChallenge && event is BodyRead
            && event->BodyRead_0@.len() == 32,
        a is ComputeAnswer ==> a->ComputeAnswer_0@ == event->BodyRead_0@ && final(d).phase
            is Answering && final(d).phase->Answering_0@ == event->BodyRead_0@,
        final(d).phase is SendingAnswer <==> old(d).phase is Answering && event is Answer,
        final(d).phase is SendingAnswer ==> a is WriteOnNew && a->WriteOnNew_0@ == session_frame(
            SessionMsg::HandoffResponse,
            event->Answer_0@,
        ),
        a is HandOver <==> old(d).phase is SendingAnswer && event is Written,
        a is HandOver ==> final(d).phase is HandingOver,
        a is Done <==> old(d).phase is HandingOver && event == HandoffEvent::HandedOver(true),
        a is Done || a is Fail <==> final(d).phase is Finished,
        a !is SendOnSession,
        final(d).nonce == old(d).nonce && final(d).session_id == old(d).session_id && final(d).timeout == old(d).timeout,
{
}

/// Why a move fails: each reason at its place, a foreign nonce and silence as a timeout,
/// and whatever comes out of turn as a task that is gone.
pub proof fn why_a_move_fails(d: &mut HandoffDriver, event: HandoffEvent, a: HandoffAction)
    requires
        call_ensures(HandoffDriver::step, (d, event), a),
    ensures
        a == HandoffAction::Fail(WarmProbeError::PrimarySendFailed) <==> old(d).phase is Announcing
            && event == HandoffEvent::AnnouncementSent(false),
        old(d).phase is AwaitingAck && (event is TimedOut || event is Acknowledged
            && event->Acknowledged_0@ != old(d).nonce@) ==> a == HandoffAction::Fail(
            WarmProbeError::AckTimeout(old(d).timeout),
        ),
        (old(d).phase is AwaitingChallengeHeader || old(d).phase is AwaitingChallenge) && event
            is TimedOut ==> a == HandoffAction::Fail(WarmProbeError::AckTimeout(old(d).timeout)),
        (old(d).phase is Attaching || old(d).phase is AwaitingChallengeHeader || old(d).phase
            is AwaitingChallenge || old(d).phase is SendingAnswer) && event is ConnectionFailed
            ==> a is Fail && a->Fail_0 is AttachWrite,
        a == HandoffAction::Fail(WarmProbeError::RunnerGone) <==> old(d).phase is HandingOver
            && event == HandoffEvent::HandedOver(false),
        old(d).phase is Finished ==> a == HandoffAction::Fail(WarmProbeError::ProbeGone),
        old(d).phase is Announcing && event !is AnnouncementSent ==> a == HandoffAction::Fail(
            WarmProbeError::ProbeGone,
        ),
        old(d).phase is Answering && event !is Answer ==> a == HandoffAction::Fail(
            WarmProbeError::ProbeGone,
        ),
{
}

/// Only a frame that announces a challenge of 32 bytes, of the session's family, is read
/// on; whatever else comes in its place fails the move.
pub proof fn only_a_challenge_is_read(bytes: &[u8], a: HandoffAction)
    requires
        call_ensures(check_challenge_header, (bytes,), a),
    ensures
        ({
            let r = header_of(bytes@, 16_777_216);
            let good = r is Ok && r->Ok_0.family == FrameFamily::Session.code_spec()
                && r->Ok_0.msg_type == SessionMsg::HandoffChallenge.code_spec()
                && r->Ok_0.body_len == 32;
            &&& good ==> a == HandoffAction::ReadBody(32)
            &&& !good ==> a is Fail && a->Fail_0 is AttachWrite
        }),
{
}

/// A move starts by announcing its nonce on the session, and from then on its
/// acknowledgement can be received.
pub proof fn a_move_is_announced(
    session_id: [u8; 32],
    nonce: [u8; 32],
    timeout: Duration,
    waiters: &mut HandoffAckWaiters,
    r: (HandoffDriver, HandoffAction),
)
    requires
        call_ensures(HandoffDriver::start, (session_id, nonce, timeout, waiters), r),
    ensures
        r.0.session_id == session_id && r.0.nonce == nonce && r.0.timeout == timeout,
        r.0.phase is Announcing,
        r.1 is SendOnSession,
        r.1->SendOnSession_0 == 1,
        r.1->SendOnSession_1@ == session_frame(SessionMsg::HandoffInit, nonce@),
        final(waiters)@.contains_key(session_id@),
{
}

/// A move needs the connection that was made in advance: what kept it from being made is
/// why it fails.
pub proof fn a_move_needs_a_connection(
    dial_error: &Option<String>,
    connected: bool,
    r: Result<(), WarmProbeError>,
)
    requires
        call_ensures(initiate_handoff, (dial_error, connected), r),
    ensures
        r is Ok <==> *dial_error is None && connected,
        r is Err ==> r->Err_0 is Dial,
        *dial_error is Some ==> r is Err && r->Err_0->Dial_0@ == dial_error->0@,
{
}

} // verus!
