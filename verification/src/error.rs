//! The ways in which a codec call or a handshake gives up.

use vstd::prelude::*;

verus! {

/// Why a codec call or a handshake step gave up.
#[derive(Debug, Clone, Copy, PartialEq, Eq, Structural)]
pub enum ProtocolError {
    /// A received payload is not a well-formed Init message.
    InitDecode,
    /// A received payload is not a well-formed ConnsList message.
    ConnsListDecode,
    /// An Init message whose payload does not fit the two-byte length field.
    InitTooLong,
    /// A ConnsList message whose payload does not fit the two-byte length field.
    ConnsListTooLong,
    /// The remote end's transport address is not an IPv4 address.
    Ipv6Unsupported,
    /// The remote end asked to reconnect, which this protocol does not offer yet.
    ReconnectUnsupported,
    /// A handshake was handed an event that its current stage does not wait for.
    UnexpectedEvent,
}

impl ProtocolError {
    /// The words in which an error is reported.
    pub open spec fn message_text(self) -> Seq<char> {
        match self {
            ProtocolError::InitDecode => "Init msg decode fail"@,
            ProtocolError::ConnsListDecode => "ConnsList msg decode fail"@,
            ProtocolError::InitTooLong => "Init message too long"@,
            ProtocolError::ConnsListTooLong => "ConnsList message too long"@,
            ProtocolError::Ipv6Unsupported => "IPv6 is currently not supported"@,
            ProtocolError::ReconnectUnsupported => "Reconnect is currently not supported"@,
            ProtocolError::UnexpectedEvent => "Handshake event out of turn"@,
        }
    }

    /// The words in which this error is reported.
    pub fn message(&self) -> (text: &'static str)
        ensures
            text@ == self.message_text(),
    {
        match self {
            ProtocolError::InitDecode => "Init msg decode fail",
            ProtocolError::ConnsListDecode => "ConnsList msg decode fail",
            ProtocolError::InitTooLong => "Init message too long",
            ProtocolError::ConnsListTooLong => "ConnsList message too long",
            ProtocolError::Ipv6Unsupported => "IPv6 is currently not supported",
            ProtocolError::ReconnectUnsupported => "Reconnect is currently not supported",
            ProtocolError::UnexpectedEvent => "Handshake event out of turn",
        }
    }
}

/// The refusal that every IPv6 address meets.
pub fn ipv6_error() -> (r: Result<(), ProtocolError>)
    ensures
        r == Err::<(), ProtocolError>(ProtocolError::Ipv6Unsupported),
{
    Err(ProtocolError::Ipv6Unsupported)
}

} // verus!
