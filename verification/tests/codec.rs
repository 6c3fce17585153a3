use mince_raft::network::framing::{frame_packet, unframe, FrameError};
use mince_raft::network::serverbound::{
    byte_list_to_bytes, encode, ClientStatus, Handshake, KeepAliveServerbound, LoginStart,
    Request, ServerboundPacket, SetCompression,
};
use mince_raft::network::types::{Byte, Long, MCString, UShort, VarInt};
use mince_raft::resources::format_name;

#[test]
fn frames_without_compression() {
    assert_eq!(frame_packet(&vec![1, 2, 3], None), vec![3, 1, 2, 3]);
    assert_eq!(unframe(&vec![1, 2, 3], false), Ok(vec![1, 2, 3]));
    assert_eq!(frame_packet(&vec![], None), vec![0]);
}

#[test]
fn frames_below_the_threshold() {
    assert_eq!(frame_packet(&vec![1, 2, 3], Some(10)), vec![4, 0, 1, 2, 3]);
    assert_eq!(unframe(&vec![0, 1, 2, 3], true), Ok(vec![1, 2, 3]));
}

#[test]
fn frames_at_the_threshold_are_compressed() {
    let packet: Vec<u8> = (0..200u32).map(|i| (i % 7) as u8).collect();
    let framed = frame_packet(&packet, Some(64));
    // Outer length (two bytes here), then the uncompressed length 200 = [0xc8, 0x01].
    let (len, n) = VarInt::from_vec(&framed, 0);
    assert_eq!(len.0 as usize, framed.len() - n);
    let body = framed[n..].to_vec();
    assert_eq!(&body[..2], &[0xc8, 0x01]);
    assert_eq!(unframe(&body, true), Ok(packet.clone()));
    // The stream after the length is a zlib stream of the packet.
    assert_eq!(
        miniz_oxide::inflate::decompress_to_vec_zlib(&body[2..]).unwrap(),
        packet
    );
}

#[test]
fn broken_frames() {
    assert_eq!(unframe(&vec![], true), Err(FrameError::Truncated));
    assert_eq!(unframe(&vec![0x80], true), Err(FrameError::Truncated));
    assert_eq!(unframe(&vec![0x05, 1, 2, 3], true), Err(FrameError::Corrupt));
}

#[test]
fn serverbound_packets() {
    let hs = Handshake {
        protocol_version: VarInt(756),
        address: MCString(String::from("a")),
        port: UShort(25565),
        next: VarInt(2),
    };
    assert_eq!(hs.encode().get_bytes(), vec![0x00, 0xf4, 0x05, 1, b'a', 0x63, 0xdd, 0x02]);
    assert_eq!(encode(Request {}), vec![1, 0x00]);
    assert_eq!(encode(LoginStart { name: MCString(String::from("Al")) }), vec![4, 0x00, 2, b'A', b'l']);
    assert_eq!(encode(ClientStatus { action: VarInt(0) }), vec![2, 0x04, 0x00]);
    assert_eq!(encode(SetCompression { threshold: VarInt(256) }), vec![3, 0x03, 0x80, 0x02]);
    assert_eq!(
        encode(KeepAliveServerbound { keep_alive_id: Long(-1) }),
        vec![9, 0x0f, 0xff, 0xff, 0xff, 0xff, 0xff, 0xff, 0xff, 0xff]
    );
    assert_eq!(byte_list_to_bytes(&vec![Byte(-1), Byte(2)]), vec![2, 0xff, 0x02]);
}

#[test]
fn display_names() {
    assert_eq!(format_name("minecraft:oak_log"), "Oak Log");
    assert_eq!(format_name("minecraft:grass_block"), "Grass Block");
    assert_eq!(format_name("stone"), "Stone");
    assert_eq!(format_name("minecraft:minecraft:air"), "Air");
    assert_eq!(format_name("minecraft:"), "");
}
