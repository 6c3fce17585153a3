use mince_raft::network::nbt::nbt_scan;
use mince_raft::network::decode::{decode_packet, is_decodable, try_decode_packet};
use mince_raft::network::messages::{DecodedPacket, HandshakeMode};
use mince_raft::network::packets::{Packet, PacketDecoder};
use mince_raft::network::types::{
    Boolean, Byte, DoubleBits, FloatBits, Long, MCString, Short, UByte, VarInt,
};
use mince_raft::state::ServerState;
use mince_raft::world::chunks::Chunk;

fn heightmap_nbt(list: Vec<i64>) -> Vec<u8> {
    let mut compound = quartz_nbt::NbtCompound::new();
    compound.insert("MOTION_BLOCKING", list);
    let mut out = Vec::new();
    quartz_nbt::io::write_nbt(&mut out, None, &compound, quartz_nbt::io::Flavor::Uncompressed)
        .unwrap();
    out
}

/// One section at 4 bits per block, palette [0, 9], every block index 1.
fn one_section() -> Vec<u8> {
    let mut data = vec![0x00, 0x10, 0x04, 0x02, 0x00, 0x09, 0x80, 0x02];
    data.extend(std::iter::repeat(0x11u8).take(256 * 8));
    data
}

#[test]
fn packet_builder() {
    let mut p = Packet::new_with_id(0x05);
    p.add(&vec![1, 2, 3]);
    p.add_byte(4);
    assert_eq!(p.size(), 5);
    assert_eq!(p.get_bytes(), vec![0x05, 1, 2, 3, 4]);
    assert_eq!(p.get_bytes_with_length(), vec![5, 0x05, 1, 2, 3, 4]);
    assert_eq!(Packet::new().size(), 0);
}

#[test]
fn encode_serverbound_packets() {
    let hs = DecodedPacket::Handshake(
        VarInt(756),
        MCString(String::from("localhost")),
        Short(25565),
        HandshakeMode::Login,
    );
    let mut expected = vec![0x00, 0xf4, 0x05, 9];
    expected.extend_from_slice(b"localhost");
    expected.extend_from_slice(&[0x63, 0xdd, 0x02]);
    assert_eq!(hs.encode().unwrap().get_bytes(), expected);

    let status = DecodedPacket::Handshake(
        VarInt(756),
        MCString(String::new()),
        Short(1),
        HandshakeMode::Status,
    );
    assert_eq!(status.encode().unwrap().get_bytes(), vec![0x00, 0xf4, 0x05, 0, 0x00, 0x01, 0x01]);

    let login = DecodedPacket::LoginStart(MCString(String::from("Steve")));
    assert_eq!(login.encode().unwrap().get_bytes(), vec![0x00, 5, b'S', b't', b'e', b'v', b'e']);

    assert_eq!(DecodedPacket::ClientStatusRespawn.encode().unwrap().get_bytes(), vec![0x04, 0x00]);
    assert_eq!(
        DecodedPacket::KeepAliveServerbound(Long(1)).encode().unwrap().get_bytes(),
        vec![0x0f, 0, 0, 0, 0, 0, 0, 0, 1]
    );
    assert_eq!(
        DecodedPacket::ChatOutgoing(MCString(String::from("hi"))).encode().unwrap().get_bytes(),
        vec![0x03, 2, b'h', b'i']
    );
    assert_eq!(
        DecodedPacket::TeleportConfirm(VarInt(300)).encode().unwrap().get_bytes(),
        vec![0x00, 0xac, 0x02]
    );
    assert_eq!(
        DecodedPacket::PlayerPosition(DoubleBits(0), DoubleBits(1), DoubleBits(2), Boolean(true))
            .encode()
            .unwrap()
            .get_bytes(),
        vec![
            0x11, 0, 0, 0, 0, 0, 0, 0, 0, 0, 0, 0, 0, 0, 0, 0, 1, 0, 0, 0, 0, 0, 0, 0, 2, 0x01
        ]
    );
    let rot = DecodedPacket::PlayerPositionAndRotation(
        DoubleBits(0),
        DoubleBits(0),
        DoubleBits(0),
        FloatBits(0x3f80_0000),
        FloatBits(0),
        Boolean(false),
    );
    let bytes = rot.encode().unwrap().get_bytes();
    assert_eq!(bytes.len(), 1 + 24 + 8 + 1);
    assert_eq!(bytes[0], 0x12);
    assert_eq!(&bytes[25..29], &[0x3f, 0x80, 0x00, 0x00]);
    let settings = DecodedPacket::ClientSettings(
        MCString(String::from("en_GB")),
        Byte(8),
        VarInt(0),
        Boolean(false),
        UByte(0xff),
        VarInt(1),
        Boolean(true),
    );
    assert_eq!(
        settings.encode().unwrap().get_bytes(),
        vec![0x05, 5, b'e', b'n', b'_', b'G', b'B', 8, 0, 0, 0xff, 1, 1]
    );
}

#[test]
fn clientbound_packets_are_not_encoded() {
    assert!(DecodedPacket::Empty.encode().is_none());
    assert!(DecodedPacket::Unknown(vec![1, 2]).encode().is_none());
    assert!(DecodedPacket::LoginSuccess().encode().is_none());
}

#[test]
fn decode_empty_and_unknown() {
    assert!(matches!(decode_packet(vec![], &ServerState::Play), DecodedPacket::Empty));
    match decode_packet(vec![0x7f, 1, 2], &ServerState::Play) {
        DecodedPacket::Unknown(bytes) => assert_eq!(bytes, vec![0x7f, 1, 2]),
        other => panic!("unexpected {:?}", other),
    }
    // Server difficulty is only read while playing.
    match decode_packet(vec![0x0e, 2, 1], &ServerState::Login) {
        DecodedPacket::Unknown(bytes) => assert_eq!(bytes, vec![0x0e, 2, 1]),
        other => panic!("unexpected {:?}", other),
    }
}

#[test]
fn decode_simple_packets() {
    match decode_packet(vec![0x21, 0, 0, 0, 0, 0, 0, 0, 42], &ServerState::Play) {
        DecodedPacket::KeepAliveClientbound(p) => assert_eq!(p.keep_alive_id.0, 42),
        other => panic!("unexpected {:?}", other),
    }
    match decode_packet(
        vec![0x58, 0, 0, 0, 0, 0, 0, 1, 0, 0xff, 0xff, 0xff, 0xff, 0xff, 0xff, 0xff, 0xff],
        &ServerState::Play,
    ) {
        DecodedPacket::TimeUpdate(p) => {
            assert_eq!(p.world_age.0, 256);
            assert_eq!(p.day_time.0, -1);
        },
        other => panic!("unexpected {:?}", other),
    }
    match decode_packet(vec![0x00, 3, b'b', b'y', b'e'], &ServerState::Login) {
        DecodedPacket::Disconnect(p) => assert_eq!(p.reason.0, "bye"),
        other => panic!("unexpected {:?}", other),
    }
    match decode_packet(vec![0x00, 2, b'{', b'}'], &ServerState::Status) {
        DecodedPacket::Status(p) => assert_eq!(p.response.0, "{}"),
        other => panic!("unexpected {:?}", other),
    }
    match decode_packet(vec![0x03, 0x80, 0x02], &ServerState::Login) {
        DecodedPacket::SetCompression(t) => assert_eq!(t.0, 256),
        other => panic!("unexpected {:?}", other),
    }
    assert!(matches!(decode_packet(vec![0x02], &ServerState::Login), DecodedPacket::LoginSuccess()));
    match decode_packet(vec![0x0e, 2, 1], &ServerState::Play) {
        DecodedPacket::ServerDifficulty(p) => {
            assert_eq!(p.difficulty.0, 2);
            assert!(p.locked.0);
        },
        other => panic!("unexpected {:?}", other),
    }
    match decode_packet(vec![0x29, 0x05, 0x00, 0x10, 0xff, 0xff, 0x00, 0x00, 0x01], &ServerState::Play) {
        DecodedPacket::EntityPosition(p) => {
            assert_eq!(p.entity_id.0, 5);
            assert_eq!((p.dx.0, p.dy.0, p.dz.0), (16, -1, 0));
            assert!(p.on_ground.0);
        },
        other => panic!("unexpected {:?}", other),
    }
    match decode_packet(vec![0x3a, 2, 7, 9], &ServerState::Play) {
        DecodedPacket::DestroyEntities(p) => {
            assert_eq!(p.entities_len.0, 2);
            assert_eq!(p.entities.iter().map(|v| v.0).collect::<Vec<i32>>(), vec![7, 9]);
        },
        other => panic!("unexpected {:?}", other),
    }
    match decode_packet(vec![0x0c, 0, 0, 0, 0x40, 0, 0, 0x30, 0x02, 0x09], &ServerState::Play) {
        DecodedPacket::BlockChange(p) => {
            assert_eq!((p.block_pos.0, p.block_pos.1, p.block_pos.2), (1, 2, 3));
            assert_eq!(p.block_state_id.0, 9);
        },
        other => panic!("unexpected {:?}", other),
    }
    assert!(matches!(decode_packet(vec![0x5c, 1, 2, 3], &ServerState::Play), DecodedPacket::SoundEffect(_)));
}

#[test]
fn decode_uuid_where_it_stands() {
    // The sender's UUID is read from the sixteen bytes after the position byte.
    let mut packet = vec![0x0f, 0x02, b'h', b'i', 0x01];
    packet.extend_from_slice(&[0x01, 0x02, 0x03, 0x04, 0x05, 0x06, 0x07, 0x08]);
    packet.extend_from_slice(&[0xaa; 8]);
    match decode_packet(packet.clone(), &ServerState::Play) {
        DecodedPacket::ChatIncoming(p) => {
            assert_eq!(p.json.0, "hi");
            assert_eq!(p.position.0, 1);
            assert_eq!(p.sender.0, [0x0102_0304_0506_0708, 0xaaaa_aaaa_aaaa_aaaa]);
        },
        other => panic!("unexpected {:?}", other),
    }
    // One byte short of the UUID: not decodable.
    packet.pop();
    assert!(!is_decodable(&packet, &ServerState::Play));
    assert!(try_decode_packet(packet, &ServerState::Play).is_none());
}

#[test]
fn nbt_with_a_negative_count_or_deep_nesting_is_refused() {
    // An empty root compound named "".
    assert_eq!(nbt_scan(&vec![10, 0, 0, 0], 0), Some(4));
    // A byte array named "a" of length -1.
    let negative = vec![10, 0, 0, 7, 0, 1, b'a', 0xff, 0xff, 0xff, 0xff, 0];
    assert_eq!(nbt_scan(&negative, 0), None);
    // The same array of length 2, with its two bytes.
    let two = vec![10, 0, 0, 7, 0, 1, b'a', 0, 0, 0, 2, 5, 6, 0];
    assert_eq!(nbt_scan(&two, 0), Some(two.len()));
    // A long array whose count goes past the end.
    let long = vec![10, 0, 0, 12, 0, 1, b'b', 0, 0, 0, 9, 0, 0];
    assert_eq!(nbt_scan(&long, 0), None);
    // Lists of lists nested 600 deep: beyond the limit.
    let mut deep = vec![10, 0, 0, 9, 0, 1, b'l'];
    for _ in 0..600 {
        deep.extend_from_slice(&[9, 0, 0, 0, 1]);
    }
    deep.extend_from_slice(&[0, 0, 0, 0, 0]);
    deep.push(0);
    assert_eq!(nbt_scan(&deep, 0), None);
    // Nested 100 deep: accepted.
    let mut shallow = vec![10, 0, 0, 9, 0, 1, b'l'];
    for _ in 0..100 {
        shallow.extend_from_slice(&[9, 0, 0, 0, 1]);
    }
    shallow.extend_from_slice(&[0, 0, 0, 0, 0]);
    shallow.push(0);
    assert_eq!(nbt_scan(&shallow, 0), Some(shallow.len()));
    // A chunk packet whose heightmaps hold a negative count is refused, not read.
    let mut packet = vec![0x22, 0, 0, 0, 1, 0, 0, 0, 1, 1, 0, 0, 0, 0, 0, 0, 0, 0];
    packet.extend_from_slice(&negative);
    packet.extend_from_slice(&[0, 0, 0]);
    assert!(try_decode_packet(packet, &ServerState::Play).is_none());
}

#[test]
fn undecodable_packets_are_refused() {
    // A boolean byte of 2.
    let bad_bool = vec![0x29, 0x05, 0, 0, 0, 0, 0, 0, 0x02];
    assert!(!is_decodable(&bad_bool, &ServerState::Play));
    assert!(try_decode_packet(bad_bool, &ServerState::Play).is_none());
    // A packet cut short.
    let short = vec![0x21, 0, 0, 0];
    assert!(!is_decodable(&short, &ServerState::Play));
    assert!(try_decode_packet(short, &ServerState::Play).is_none());
    // A negative count.
    let negative = vec![0x3a, 0xff, 0xff, 0xff, 0xff, 0x0f];
    assert!(try_decode_packet(negative, &ServerState::Play).is_none());
    // A string that is not UTF-8.
    let not_utf8 = vec![0x1a, 1, 0xff];
    assert!(try_decode_packet(not_utf8, &ServerState::Play).is_none());
    // Undecoded and empty packets are always accepted.
    assert!(is_decodable(&vec![0x7f], &ServerState::Play));
    assert!(is_decodable(&vec![], &ServerState::Play));
    assert!(matches!(
        try_decode_packet(vec![0x21, 0, 0, 0, 0, 0, 0, 0, 1], &ServerState::Play),
        Some(DecodedPacket::KeepAliveClientbound(_))
    ));
}

#[test]
fn decoder_walks_fields() {
    let buf = vec![0x00, 0x01, 0x80, 0x7f, 0x12, 0x34, 0xac, 0x02, 2, b'o', b'k'];
    let mut pd = PacketDecoder::new(&buf);
    assert_eq!(pd.get_index(), 1);
    assert!(pd.next_bool().0);
    assert_eq!(pd.next_byte().0, -128);
    assert_eq!(pd.next_ubyte().0, 0x7f);
    assert_eq!(pd.next_short().0, 0x1234);
    assert_eq!(pd.next_varint().0, 300);
    assert_eq!(pd.next_string().0, "ok");
    assert_eq!(pd.get_index(), buf.len());
    let mut at = PacketDecoder::with_index(&buf, 6);
    assert_eq!(at.next_varint().0, 300);
}

#[test]
fn decode_chunk_data_and_build_chunk() {
    let mut heights = vec![0i64; 37];
    heights[0] = 5 | (7 << 9);
    let nbt = heightmap_nbt(heights);
    let section = one_section();
    let mut packet = vec![0x22];
    packet.extend_from_slice(&[0, 0, 0, 2]);
    packet.extend_from_slice(&[0xff, 0xff, 0xff, 0xfd]);
    packet.push(1);
    packet.extend_from_slice(&[0, 0, 0, 0, 0, 0, 0, 1]);
    packet.extend_from_slice(&nbt);
    packet.push(0);
    packet.extend_from_slice(&[0x88, 0x10]);
    packet.extend_from_slice(&section);
    packet.push(0);
    assert_eq!(section.len(), 2056);
    let decoded = try_decode_packet(packet, &ServerState::Play).expect("decodable");
    let cd = match decoded {
        DecodedPacket::ChunkData(cd) => cd,
        other => panic!("unexpected {:?}", other),
    };
    assert_eq!((cd.x.0, cd.z.0), (2, -3));
    assert_eq!(cd.bit_mask.len(), 1);
    assert_eq!(cd.data_len.0, 2056);
    assert_eq!(cd.block_entities.len(), 0);
    let chunk = Chunk::try_new(&cd).expect("chunk");
    assert_eq!(chunk.get_coords(), (2, -3));
    assert_eq!(chunk.get_highest_block((0, 0)), 5);
    assert_eq!(chunk.get_highest_block((1, 0)), 7);
    assert_eq!(chunk.get_highest_block((2, 0)), 0);
    assert_eq!(chunk.block_id_at((3, 5, 7)), 9);
    assert_eq!(chunk.block_id_at((0, 20, 0)), 0);
    assert_eq!(chunk.block_id_at((16, 0, 0)), 0);
    let same = Chunk::new(&cd).expect("chunk");
    assert_eq!(same.block_id_at((15, 15, 15)), 9);
}
