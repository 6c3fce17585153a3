use mince_raft::network::types::{varint_feed, VarIntStep};
use mince_raft::network::types::{
    Boolean, Byte, Int, Long, MCString, Position, Short, UByte, UShort, VarInt, VarLong, UUID,
};
use rand::Rng;

#[test]
fn varint_works() {
    let mut rng = rand::thread_rng();

    for _ in 0..10000 {
        let val = VarInt(rng.gen());

        let bytes = val.to_bytes();
        let out = VarInt::from_bytes(bytes.as_slice()).unwrap();

        assert_eq!(val.0, out.0);
    }
}

#[test]
fn varlong_works() {
    let mut rng = rand::thread_rng();

    for _ in 0..10000 {
        let val = VarLong(rng.gen());

        let bytes = val.to_bytes();
        let out = VarLong::from_bytes(bytes.as_slice());

        assert_eq!(val.0, out.0);
    }
}

#[test]
fn varint_known_encodings() {
    assert_eq!(VarInt(0).to_bytes(), vec![0x00]);
    assert_eq!(VarInt(1).to_bytes(), vec![0x01]);
    assert_eq!(VarInt(127).to_bytes(), vec![0x7f]);
    assert_eq!(VarInt(128).to_bytes(), vec![0x80, 0x01]);
    assert_eq!(VarInt(255).to_bytes(), vec![0xff, 0x01]);
    assert_eq!(VarInt(25565).to_bytes(), vec![0xdd, 0xc7, 0x01]);
    assert_eq!(VarInt(2147483647).to_bytes(), vec![0xff, 0xff, 0xff, 0xff, 0x07]);
    assert_eq!(VarInt(-1).to_bytes(), vec![0xff, 0xff, 0xff, 0xff, 0x0f]);
    assert_eq!(VarInt(-2147483648).to_bytes(), vec![0x80, 0x80, 0x80, 0x80, 0x08]);
    assert_eq!(VarInt(0).num_bytes(), 1);
    assert_eq!(VarInt(300).num_bytes(), 2);
    assert_eq!(VarInt(-1).num_bytes(), 5);
}

#[test]
fn varint_reads_known_bytes() {
    assert_eq!(VarInt::from_bytes(&[0xdd, 0xc7, 0x01, 0x55]).unwrap().0, 25565);
    assert_eq!(VarInt::from_bytes(&[0xff, 0xff, 0xff, 0xff, 0x0f]).unwrap().0, -1);
    // Digits beyond 32 bits are dropped.
    assert_eq!(VarInt::from_bytes(&[0xff, 0xff, 0xff, 0xff, 0x7f]).unwrap().0, -1);
}

#[test]
fn varint_from_vec_positions() {
    let buf = vec![0x99, 0xac, 0x02, 0x05];
    let (v, n) = VarInt::from_vec(&buf, 1);
    assert_eq!(v.0, 300);
    assert_eq!(n, 2);
    // The buffer ends inside the number: zero, and no bytes taken.
    let cut = vec![0x80, 0x80];
    let (v, n) = VarInt::from_vec(&cut, 0);
    assert_eq!(v.0, 0);
    assert_eq!(n, 0);
}

#[test]
fn varint_from_stream() {
    let mut cur = std::io::Cursor::new(vec![0xac, 0x02, 0x07]);
    let (v, n) = VarInt::from_stream(&mut cur).unwrap().unwrap();
    assert_eq!(v.0, 300);
    assert_eq!(n, 2);
    let mut empty = std::io::Cursor::new(Vec::<u8>::new());
    assert!(VarInt::from_stream(&mut empty).is_err());
    let mut too_long = std::io::Cursor::new(vec![0x80, 0x80, 0x80, 0x80, 0x80, 0x01]);
    assert!(VarInt::from_stream(&mut too_long).unwrap().is_none());
    assert_eq!(too_long.position(), 6);
    // Five continuation bytes and then the end of the stream: the sixth read fails.
    let mut cut = std::io::Cursor::new(vec![0x80, 0x80, 0x80, 0x80, 0x80]);
    assert!(VarInt::from_stream(&mut cut).is_err());
}

#[test]
fn varlong_known_encodings() {
    assert_eq!(VarLong(0).to_bytes(), vec![0x00]);
    assert_eq!(VarLong(128).to_bytes(), vec![0x80, 0x01]);
    assert_eq!(
        VarLong(-1).to_bytes(),
        vec![0xff, 0xff, 0xff, 0xff, 0xff, 0xff, 0xff, 0xff, 0xff, 0x01]
    );
    assert_eq!(
        VarLong(9223372036854775807).to_bytes(),
        vec![0xff, 0xff, 0xff, 0xff, 0xff, 0xff, 0xff, 0xff, 0x7f]
    );
    let buf = vec![0x00, 0x80, 0x01];
    let (v, n) = VarLong::from_vec(&buf, 1);
    assert_eq!(v.0, 128);
    assert_eq!(n, 2);
}

#[test]
fn fixed_width_numbers_are_big_endian() {
    assert_eq!(Short(-2).to_bytes(), vec![0xff, 0xfe]);
    assert_eq!(Short::from_bytes(&[0xff, 0xfe]).0, -2);
    assert_eq!(UShort(25565).to_bytes(), vec![0x63, 0xdd]);
    assert_eq!(UShort::from_bytes(&[0x63, 0xdd]).0, 25565);
    assert_eq!(Int(0x01020304).to_bytes(), vec![1, 2, 3, 4]);
    assert_eq!(Int::from_bytes(&[0x80, 0, 0, 0]).0, i32::MIN);
    assert_eq!(Long(1).to_bytes(), vec![0, 0, 0, 0, 0, 0, 0, 1]);
    assert_eq!(Long::from_bytes(&[0xff; 8]).0, -1);
    assert_eq!(Byte(-1).to_bytes(), vec![0xff]);
    assert_eq!(Byte::from_bytes(&[0x80]).0, -128);
    assert_eq!(UByte(200).to_bytes(), vec![200]);
    assert_eq!(UByte::from_bytes(&[7]).0, 7);
}

#[test]
fn booleans() {
    assert_eq!(Boolean(true).to_bytes(), vec![0x01]);
    assert_eq!(Boolean(false).to_bytes(), vec![0x00]);
    assert_eq!(Boolean::from_bytes(&[0x01]).map(|b| b.0), Some(true));
    assert_eq!(Boolean::from_bytes(&[0x00]).map(|b| b.0), Some(false));
    assert!(Boolean::from_bytes(&[0x02]).is_none());
    assert!(Boolean::from_bytes(&[]).is_none());
}

#[test]
fn strings_round_trip() {
    let s = MCString(String::from("hello"));
    let bytes = s.to_bytes();
    assert_eq!(bytes, vec![5, b'h', b'e', b'l', b'l', b'o']);
    let back = MCString::from_bytes(bytes.as_slice()).unwrap();
    assert_eq!(back.0, "hello");
    // Two-byte UTF-8 characters count as two bytes of length.
    let e = MCString(String::from("é")).to_bytes();
    assert_eq!(e, vec![2, 0xc3, 0xa9]);
    // Bytes that are not UTF-8 are an error.
    assert!(MCString::from_bytes(&[1, 0xff]).is_err());
}

#[test]
fn positions_pack_and_unpack() {
    let p = Position(1, 2, 3);
    let bytes = p.to_bytes();
    // x in the top 26 bits, z in the next 26, y in the low 12.
    assert_eq!(bytes, vec![0x00, 0x00, 0x00, 0x40, 0x00, 0x00, 0x30, 0x02]);
    let mut arr = [0u8; 8];
    arr.copy_from_slice(&bytes);
    let back = Position::from_bytes(&arr);
    assert_eq!((back.0, back.1, back.2), (1, 2, 3));
}

#[test]
fn uuids_round_trip() {
    let u = UUID([0x0102030405060708, 0x1112131415161718]);
    let bytes = u.to_bytes();
    assert_eq!(bytes[0], 0x01);
    assert_eq!(bytes[8], 0x11);
    let mut arr = [0u8; 16];
    arr.copy_from_slice(&bytes);
    let back = UUID::from_bytes(&arr);
    assert_eq!(back.0, [0x0102030405060708, 0x1112131415161718]);
}

#[test]
fn varint_feed_steps() {
    assert!(matches!(varint_feed(0, 0, 0xac), VarIntStep::More(1, 0x2c)));
    match varint_feed(1, 0x2c, 0x02) {
        VarIntStep::Done(v, n) => assert_eq!((v.0, n), (300, 2)),
        other => panic!("unexpected {:?}", other),
    }
    match varint_feed(4, 0, 0x0f) {
        VarIntStep::Done(v, n) => assert_eq!((v.0, n), (-268435456, 5)),
        other => panic!("unexpected {:?}", other),
    }
    assert!(matches!(varint_feed(4, 7, 0x80), VarIntStep::More(5, 7)));
    assert!(matches!(varint_feed(5, 7, 0x00), VarIntStep::TooBig));
}
