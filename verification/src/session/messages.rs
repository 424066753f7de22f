//! The families of frames and the messages that the session layer itself sends
//! or intercepts.

use vstd::prelude::*;

verus! {

/// The family of a frame.
#[derive(Clone, Copy, Debug, PartialEq, Eq, Structural)]
pub enum FrameFamily {
    Control,
    Session,
    Discovery,
    Routing,
}

impl FrameFamily {
    /// The number that stands for the family in a header.
    pub open spec fn code_spec(self) -> u8 {
        match self {
            FrameFamily::Control => 1,
            FrameFamily::Session => 2,
            FrameFamily::Discovery => 3,
            FrameFamily::Routing => 4,
        }
    }

    /// The number that stands for the family in a header.
    pub fn code(self) -> (n: u8)
        ensures
            n == self.code_spec(),
    {
        match self {
            FrameFamily::Control => 1,
            FrameFamily::Session => 2,
            FrameFamily::Discovery => 3,
            FrameFamily::Routing => 4,
        }
    }
}

/// Messages of the control family.
#[derive(Clone, Copy, Debug, PartialEq, Eq, Structural)]
pub enum ControlMsg {
    Keepalive,
    KeepaliveAck,
    Backpressure,
}

impl ControlMsg {
    /// The number that stands for the message in a header.
    pub open spec fn code_spec(self) -> u16 {
        match self {
            ControlMsg::Keepalive => 1,
            ControlMsg::KeepaliveAck => 2,
            ControlMsg::Backpressure => 3,
        }
    }

    /// The number that stands for the message in a header.
    pub fn code(self) -> (n: u16)
        ensures
            n == self.code_spec(),
    {
        match self {
            ControlMsg::Keepalive => 1,
            ControlMsg::KeepaliveAck => 2,
            ControlMsg::Backpressure => 3,
        }
    }
}

/// Answers of the discovery family that belong to a pending request.
#[derive(Clone, Copy, Debug, PartialEq, Eq, Structural)]
pub enum DiscoveryMsg {
    FindValueResponse,
    FindNodeV2Response,
    ResolveTransportResponse,
}

impl DiscoveryMsg {
    /// The number that stands for the message in a header.
    pub open spec fn code_spec(self) -> u16 {
        match self {
            DiscoveryMsg::FindValueResponse => 1,
            DiscoveryMsg::FindNodeV2Response => 2,
            DiscoveryMsg::ResolveTransportResponse => 3,
        }
    }

    /// The number that stands for the message in a header.
    pub fn code(self) -> (n: u16)
        ensures
            n == self.code_spec(),
    {
        match self {
            DiscoveryMsg::FindValueResponse => 1,
            DiscoveryMsg::FindNodeV2Response => 2,
            DiscoveryMsg::ResolveTransportResponse => 3,
        }
    }

    /// Whether a message number is one of the answers.
    pub fn is_response(code: u16) -> (b: bool)
        ensures
            b == (exists|m: DiscoveryMsg| #[trigger] m.code_spec() == code),
    {
        let b: bool = code == DiscoveryMsg::FindValueResponse.code() || code
            == DiscoveryMsg::FindNodeV2Response.code() || code
            == DiscoveryMsg::ResolveTransportResponse.code();
        b
    }
}

/// Messages of the session family.
#[derive(Clone, Copy, Debug, PartialEq, Eq, Structural)]
pub enum SessionMsg {
    Ticket,
    RekeyInit,
    RekeyAck,
    RekeyKeptInit,
    MlKemRekeyEk,
    MlKemRekeyAck,
    Padding,
    HandoffInit,
    HandoffAck,
    HandoffAttach,
    HandoffChallenge,
    HandoffResponse,
    TransportMigrationNotify,
    RequestEphemeralEndpoint,
    EphemeralEndpointResponse,
}

impl SessionMsg {
    /// The number that stands for the message in a header.
    pub open spec fn code_spec(self) -> u16 {
        match self {
            SessionMsg::Ticket => 1,
            SessionMsg::RekeyInit => 2,
            SessionMsg::RekeyAck => 3,
            SessionMsg::RekeyKeptInit => 4,
            SessionMsg::MlKemRekeyEk => 5,
            SessionMsg::MlKemRekeyAck => 6,
            SessionMsg::Padding => 7,
            SessionMsg::HandoffInit => 8,
            SessionMsg::HandoffAck => 9,
            SessionMsg::HandoffAttach => 10,
            SessionMsg::HandoffChallenge => 11,
            SessionMsg::HandoffResponse => 12,
            SessionMsg::TransportMigrationNotify => 13,
            SessionMsg::RequestEphemeralEndpoint => 14,
            SessionMsg::EphemeralEndpointResponse => 15,
        }
    }

    /// The number that stands for the message in a header.
    pub fn code(self) -> (n: u16)
        ensures
            n == self.code_spec(),
    {
        match self {
            SessionMsg::Ticket => 1,
            SessionMsg::RekeyInit => 2,
            SessionMsg::RekeyAck => 3,
            SessionMsg::RekeyKeptInit => 4,
            SessionMsg::MlKemRekeyEk => 5,
            SessionMsg::MlKemRekeyAck => 6,
            SessionMsg::Padding => 7,
            SessionMsg::HandoffInit => 8,
            SessionMsg::HandoffAck => 9,
            SessionMsg::HandoffAttach => 10,
            SessionMsg::HandoffChallenge => 11,
            SessionMsg::HandoffResponse => 12,
            SessionMsg::TransportMigrationNotify => 13,
            SessionMsg::RequestEphemeralEndpoint => 14,
            SessionMsg::EphemeralEndpointResponse => 15,
        }
    }

    /// The message that a number stands for.
    pub fn from_code(code: u16) -> (m: Option<SessionMsg>)
        ensures
            m matches Some(x) ==> x.code_spec() == code,
            m is None ==> forall|y: SessionMsg| #[trigger] y.code_spec() != code,
    {
        match code {
            1 => Some(SessionMsg::Ticket),
            2 => Some(SessionMsg::RekeyInit),
            3 => Some(SessionMsg::RekeyAck),
            4 => Some(SessionMsg::RekeyKeptInit),
            5 => Some(SessionMsg::MlKemRekeyEk),
            6 => Some(SessionMsg::MlKemRekeyAck),
            7 => Some(SessionMsg::Padding),
            8 => Some(SessionMsg::HandoffInit),
            9 => Some(SessionMsg::HandoffAck),
            10 => Some(SessionMsg::HandoffAttach),
            11 => Some(SessionMsg::HandoffChallenge),
            12 => Some(SessionMsg::HandoffResponse),
            13 => Some(SessionMsg::TransportMigrationNotify),
            14 => Some(SessionMsg::RequestEphemeralEndpoint),
            15 => Some(SessionMsg::EphemeralEndpointResponse),
            _ => None,
        }
    }
}

/// No two families and no two messages of a family share a number, and a number that
/// stands for a message is read as that message.
pub proof fn numbers_tell_messages_apart(
    f: FrameFamily,
    g: FrameFamily,
    fc: u8,
    gc: u8,
    c: ControlMsg,
    d: ControlMsg,
    cc: u16,
    dc: u16,
    m: SessionMsg,
    n: SessionMsg,
    mc: u16,
    nc: u16,
    read: Option<SessionMsg>,
)
    requires
        call_ensures(FrameFamily::code, (f,), fc),
        call_ensures(FrameFamily::code, (g,), gc),
        call_ensures(ControlMsg::code, (c,), cc),
        call_ensures(ControlMsg::code, (d,), dc),
        call_ensures(SessionMsg::code, (m,), mc),
        call_ensures(SessionMsg::code, (n,), nc),
        call_ensures(SessionMsg::from_code, (mc,), read),
    ensures
        fc == gc <==> f == g,
        cc == dc <==> c == d,
        mc == nc <==> m == n,
        read == Some(m),
{
    assert(m.code_spec() == mc);
}

/// A discovery message is an answer exactly when it has the number of one.
pub proof fn answers_of_discovery_are_known(
    a: DiscoveryMsg,
    b: DiscoveryMsg,
    ac: u16,
    bc: u16,
    known: bool,
    code: u16,
    r: bool,
)
    requires
        call_ensures(DiscoveryMsg::code, (a,), ac),
        call_ensures(DiscoveryMsg::code, (b,), bc),
        call_ensures(DiscoveryMsg::is_response, (ac,), known),
        call_ensures(DiscoveryMsg::is_response, (code,), r),
    ensures
        ac == bc <==> a == b,
        known,
        r ==> code == DiscoveryMsg::FindValueResponse.code_spec() || code
            == DiscoveryMsg::FindNodeV2Response.code_spec() || code
            == DiscoveryMsg::ResolveTransportResponse.code_spec(),
{
    assert(a.code_spec() == ac);
}

} // verus!
