//! The decisions of a connection's network side: what a login packet means for the
//! connection, which compression a threshold asks for, and how a keep-alive is answered.
use vstd::prelude::*;

use crate::network::messages::DecodedPacket;
use crate::network::types::Long;

verus! {

/// The compression a `SetCompression` threshold asks for: none for a threshold of zero or
/// less, and otherwise compression of the packets at least that long.
pub open spec fn compression_of(threshold: i32) -> Option<usize> {
    if threshold <= 0 {
        None
    } else {
        Some(threshold as usize)
    }
}

/// The compression a `SetCompression` threshold asks for.
pub fn compression_for(threshold: i32) -> (c: Option<usize>)
    ensures
        c == compression_of(threshold),
{
    if threshold <= 0 {
        None
    } else {
        Some(threshold as usize)
    }
}

/// What a packet received while logging in means for the connection.
#[derive(Debug, Clone, Copy, PartialEq, Eq, Structural)]
pub enum LoginOutcome {
    /// Nothing changes; keep waiting.
    Waiting,
    /// Packets are compressed from now on as given.
    Compression(Option<usize>),
    /// The login succeeded; the connection moves to play.
    LoggedIn,
    /// The server refused the login.
    Disconnected,
    /// The server asked for encryption or a login plugin, which this client does not do.
    Unsupported,
}

/// What a packet received while logging in means for the connection.
pub fn login_outcome(packet: &DecodedPacket) -> (o: LoginOutcome)
    ensures
        o == (match packet {
            DecodedPacket::SetCompression(t) => LoginOutcome::Compression(compression_of(t.0)),
            DecodedPacket::LoginSuccess() => LoginOutcome::LoggedIn,
            DecodedPacket::Disconnect(_) => LoginOutcome::Disconnected,
            DecodedPacket::EncryptionRequest() => LoginOutcome::Unsupported,
            DecodedPacket::LoginPluginRequest() => LoginOutcome::Unsupported,
            _ => LoginOutcome::Waiting,
        }),
{
    match packet {
        DecodedPacket::SetCompression(t) => LoginOutcome::Compression(compression_for(t.0)),
        DecodedPacket::LoginSuccess() => LoginOutcome::LoggedIn,
        DecodedPacket::Disconnect(_) => LoginOutcome::Disconnected,
        DecodedPacket::EncryptionRequest() => LoginOutcome::Unsupported,
        DecodedPacket::LoginPluginRequest() => LoginOutcome::Unsupported,
        _ => LoginOutcome::Waiting,
    }
}

/// The answer to a keep-alive: the same id sent back; no answer to other packets.
pub fn keep_alive_reply(packet: &DecodedPacket) -> (r: Option<DecodedPacket>)
    ensures
        packet matches DecodedPacket::KeepAliveClientbound(p) ==> (r matches Some(
            DecodedPacket::KeepAliveServerbound(id),
        ) && id.0 == p.keep_alive_id.0),
        !(packet is KeepAliveClientbound) ==> r is None,
{
    match packet {
        DecodedPacket::KeepAliveClientbound(p) => Some(
            DecodedPacket::KeepAliveServerbound(Long(p.keep_alive_id.0)),
        ),
        _ => None,
    }
}

} // verus!
