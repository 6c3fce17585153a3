//! Packets as the client writes them: each serverbound packet is its ID then its fields,
//! and goes on the wire after its length.
use vstd::prelude::*;

use crate::network::fixed::be_bytes;
use crate::network::messages::bool_byte;
use crate::network::packets::Packet;
use crate::network::types::{
    mcstring_bytes, varint_bytes, Boolean, Byte, Identifier, Long, MCString, UByte, UShort,
    VarInt, UUID,
};
use crate::world::chunks::raw_bytes;

verus! {

/// A packet the client can send.
pub trait ServerboundPacket {
    /// The packet's ID followed by its fields.
    spec fn wire_bytes(&self) -> Seq<u8>;

    /// The packet's ID followed by its fields.
    fn encode(&self) -> (p: Packet)
        ensures
            p@ == self.wire_bytes(),
    ;
}

/// The bytes of a list of signed bytes as sent: its length as a `VarInt`, then the bytes.
pub open spec fn byte_list_bytes(v: Seq<Byte>) -> Seq<u8> {
    varint_bytes(v.len() as i32) + raw_bytes(v)
}

/// A list of signed bytes as sent: its length as a `VarInt`, then the bytes.
pub fn byte_list_to_bytes(v: &Vec<Byte>) -> (out: Vec<u8>)
    ensures
        out@ == byte_list_bytes(v@),
{
    let mut out = VarInt(v.len() as i32).to_bytes();
    let ghost prefix = out@;
    for i in 0..v.len()
        invariant
            out@ == prefix + raw_bytes(v@.take(i as int)),
    {
        out.push(v[i].0 as u8);
        proof {
            assert(raw_bytes(v@.take(i + 1)) =~= raw_bytes(v@.take(i as int)).push(
                v@[i as int].0 as u8,
            ));
        }
    }
    proof {
        assert(v@.take(v@.len() as int) =~= v@);
    }
    out
}

/// A packet as it goes on the wire without compression: its length as a `VarInt`, then
/// its ID and fields.
pub fn encode<P: ServerboundPacket>(packet: P) -> (out: Vec<u8>)
    ensures
        out@ == varint_bytes(packet.wire_bytes().len() as i32) + packet.wire_bytes(),
{
    packet.encode().get_bytes_with_length()
}

/// A packet this library does not decode, with all its bytes.
#[derive(Debug)]
pub struct Unknown {
    pub bytes: Vec<u8>,
}

/// Entity metadata; its entries are not read.
#[derive(Debug)]
pub struct Metadata();

/// The first packet of a connection: the protocol version, the address and port connected to, and the state to move to (1 status, 2 login).
#[derive(Debug)]
pub struct Handshake {
    pub protocol_version: VarInt,
    pub address: MCString,
    pub port: UShort,
    pub next: VarInt,
}

/// Asks for the server's status.
#[derive(Debug)]
pub struct Request {}

/// The server's status, as JSON.
#[derive(Debug)]
pub struct Response {
    pub json: MCString,
}

/// Confirms a teleport by its ID.
#[derive(Debug)]
pub struct TeleportConfirm {
    pub teleport_id: VarInt,
}

/// A ping with a payload to be echoed.
#[derive(Debug)]
pub struct Ping {
    pub payload: Long,
}

/// The echo of a ping's payload.
#[derive(Debug)]
pub struct ClientPong {
    pub payload: Long,
}

/// Starts logging in with the player's name.
#[derive(Debug)]
pub struct LoginStart {
    pub name: MCString,
}

/// The server asks to encrypt the connection.
#[derive(Debug)]
pub struct EncryptionRequest {
    pub server_id: MCString,
    pub public_key: Vec<Byte>,
    pub verify_token: Vec<Byte>,
}

/// The login succeeded.
#[derive(Debug)]
pub struct LoginSuccess {
    pub uuid: UUID,
    pub username: MCString,
}

/// The threshold from which packets are compressed.
#[derive(Debug)]
pub struct SetCompression {
    pub threshold: VarInt,
}

/// A plugin's message during login.
#[derive(Debug)]
pub struct LoginPluginRequest {
    pub message_id: VarInt,
    pub channel: Identifier,
    pub data: Vec<Byte>,
}

/// A chat message or command from the player.
#[derive(Debug)]
pub struct ChatMessageServerbound {
    pub message: MCString,
}

/// A status action of the client (0 respawn, 1 statistics).
#[derive(Debug)]
pub struct ClientStatus {
    pub action: VarInt,
}

/// The player's settings.
#[derive(Debug)]
pub struct ClientSettings {
    pub locale: MCString,
    pub view_distance: Byte,
    pub chat_mode: VarInt,
    pub chat_colors: Boolean,
    pub display_skin_parts: UByte,
    pub main_hand: VarInt,
    pub disable_text_filtering: Boolean,
}

/// The answer to a keep-alive.
#[derive(Debug)]
pub struct KeepAliveServerbound {
    pub keep_alive_id: Long,
}

impl ServerboundPacket for Handshake {
    open spec fn wire_bytes(&self) -> Seq<u8> {
        seq![0x00u8] + varint_bytes(self.protocol_version.0) + mcstring_bytes(self.address.0@) + be_bytes(self.port.0 as nat, 2) + varint_bytes(self.next.0)
    }

    fn encode(&self) -> (p: Packet) {
        let mut out = Packet::new_with_id(0x00);
        out.add(&self.protocol_version.to_bytes());
        out.add(&self.address.to_bytes());
        out.add(&self.port.to_bytes());
        out.add(&self.next.to_bytes());
        assert(out@ =~= self.wire_bytes());
        out
    }
}

impl ServerboundPacket for Request {
    open spec fn wire_bytes(&self) -> Seq<u8> {
        seq![0x00u8]
    }

    fn encode(&self) -> (p: Packet) {
        let mut out = Packet::new_with_id(0x00);
        assert(out@ =~= self.wire_bytes());
        out
    }
}

impl ServerboundPacket for Response {
    open spec fn wire_bytes(&self) -> Seq<u8> {
        seq![0x00u8] + mcstring_bytes(self.json.0@)
    }

    fn encode(&self) -> (p: Packet) {
        let mut out = Packet::new_with_id(0x00);
        out.add(&self.json.to_bytes());
        assert(out@ =~= self.wire_bytes());
        out
    }
}

impl ServerboundPacket for TeleportConfirm {
    open spec fn wire_bytes(&self) -> Seq<u8> {
        seq![0x00u8] + varint_bytes(self.teleport_id.0)
    }

    fn encode(&self) -> (p: Packet) {
        let mut out = Packet::new_with_id(0x00);
        out.add(&self.teleport_id.to_bytes());
        assert(out@ =~= self.wire_bytes());
        out
    }
}

impl ServerboundPacket for Ping {
    open spec fn wire_bytes(&self) -> Seq<u8> {
        seq![0x01u8] + be_bytes(self.payload.0 as u64 as nat, 8)
    }

    fn encode(&self) -> (p: Packet) {
        let mut out = Packet::new_with_id(0x01);
        out.add(&self.payload.to_bytes());
        assert(out@ =~= self.wire_bytes());
        out
    }
}

impl ServerboundPacket for ClientPong {
    open spec fn wire_bytes(&self) -> Seq<u8> {
        seq![0x01u8] + be_bytes(self.payload.0 as u64 as nat, 8)
    }

    fn encode(&self) -> (p: Packet) {
        let mut out = Packet::new_with_id(0x01);
        out.add(&self.payload.to_bytes());
        assert(out@ =~= self.wire_bytes());
        out
    }
}

impl ServerboundPacket for LoginStart {
    open spec fn wire_bytes(&self) -> Seq<u8> {
        seq![0x00u8] + mcstring_bytes(self.name.0@)
    }

    fn encode(&self) -> (p: Packet) {
        let mut out = Packet::new_with_id(0x00);
        out.add(&self.name.to_bytes());
        assert(out@ =~= self.wire_bytes());
        out
    }
}

impl ServerboundPacket for EncryptionRequest {
    open spec fn wire_bytes(&self) -> Seq<u8> {
        seq![0x01u8] + mcstring_bytes(self.server_id.0@) + byte_list_bytes(self.public_key@) + byte_list_bytes(self.verify_token@)
    }

    fn encode(&self) -> (p: Packet) {
        let mut out = Packet::new_with_id(0x01);
        out.add(&self.server_id.to_bytes());
        out.add(&byte_list_to_bytes(&self.public_key));
        out.add(&byte_list_to_bytes(&self.verify_token));
        assert(out@ =~= self.wire_bytes());
        out
    }
}

impl ServerboundPacket for LoginSuccess {
    open spec fn wire_bytes(&self) -> Seq<u8> {
        seq![0x02u8] + be_bytes(self.uuid.0[0] as nat, 8) + be_bytes(self.uuid.0[1] as nat, 8) + mcstring_bytes(self.username.0@)
    }

    fn encode(&self) -> (p: Packet) {
        let mut out = Packet::new_with_id(0x02);
        out.add(&self.uuid.to_bytes());
        out.add(&self.username.to_bytes());
        assert(out@ =~= self.wire_bytes());
        out
    }
}

impl ServerboundPacket for SetCompression {
    open spec fn wire_bytes(&self) -> Seq<u8> {
        seq![0x03u8] + varint_bytes(self.threshold.0)
    }

    fn encode(&self) -> (p: Packet) {
        let mut out = Packet::new_with_id(0x03);
        out.add(&self.threshold.to_bytes());
        assert(out@ =~= self.wire_bytes());
        out
    }
}

impl ServerboundPacket for LoginPluginRequest {
    open spec fn wire_bytes(&self) -> Seq<u8> {
        seq![0x04u8] + varint_bytes(self.message_id.0) + mcstring_bytes(self.channel.0@) + byte_list_bytes(self.data@)
    }

    fn encode(&self) -> (p: Packet) {
        let mut out = Packet::new_with_id(0x04);
        out.add(&self.message_id.to_bytes());
        out.add(&self.channel.to_bytes());
        out.add(&byte_list_to_bytes(&self.data));
        assert(out@ =~= self.wire_bytes());
        out
    }
}

impl ServerboundPacket for ChatMessageServerbound {
    open spec fn wire_bytes(&self) -> Seq<u8> {
        seq![0x03u8] + mcstring_bytes(self.message.0@)
    }

    fn encode(&self) -> (p: Packet) {
        let mut out = Packet::new_with_id(0x03);
        out.add(&self.message.to_bytes());
        assert(out@ =~= self.wire_bytes());
        out
    }
}

impl ServerboundPacket for ClientStatus {
    open spec fn wire_bytes(&self) -> Seq<u8> {
        seq![0x04u8] + varint_bytes(self.action.0)
    }

    fn encode(&self) -> (p: Packet) {
        let mut out = Packet::new_with_id(0x04);
        out.add(&self.action.to_bytes());
        assert(out@ =~= self.wire_bytes());
        out
    }
}

impl ServerboundPacket for ClientSettings {
    open spec fn wire_bytes(&self) -> Seq<u8> {
        seq![0x05u8] + mcstring_bytes(self.locale.0@) + seq![self.view_distance.0 as u8] + varint_bytes(self.chat_mode.0) + bool_byte(self.chat_colors.0) + seq![self.display_skin_parts.0] + varint_bytes(self.main_hand.0) + bool_byte(self.disable_text_filtering.0)
    }

    fn encode(&self) -> (p: Packet) {
        let mut out = Packet::new_with_id(0x05);
        out.add(&self.locale.to_bytes());
        out.add(&self.view_distance.to_bytes());
        out.add(&self.chat_mode.to_bytes());
        out.add(&self.chat_colors.to_bytes());
        out.add(&self.display_skin_parts.to_bytes());
        out.add(&self.main_hand.to_bytes());
        out.add(&self.disable_text_filtering.to_bytes());
        assert(out@ =~= self.wire_bytes());
        out
    }
}

impl ServerboundPacket for KeepAliveServerbound {
    open spec fn wire_bytes(&self) -> Seq<u8> {
        seq![0x0fu8] + be_bytes(self.keep_alive_id.0 as u64 as nat, 8)
    }

    fn encode(&self) -> (p: Packet) {
        let mut out = Packet::new_with_id(0x0f);
        out.add(&self.keep_alive_id.to_bytes());
        assert(out@ =~= self.wire_bytes());
        out
    }
}
} // verus!
