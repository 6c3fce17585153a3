//! Packets as byte buffers: building outgoing packets and walking incoming ones.
use vstd::prelude::*;

use vstd::utf8::{decode_utf8, valid_utf8};

use crate::network::base128::{encoded_len, ends_within, lemma_encoded_len};
use crate::network::decode::{field_end, read_field, FieldKind};
use crate::network::fixed::be_value;
use crate::network::nbt::{nbt_long_arrays, nbt_read, nbt_root_end, read_compound_at, NBTTag};
use crate::network::types::{
    mcstring_payload, mcstring_readable, varint_at_start, varint_bytes, varlong_at_start, Angle,
    Boolean, Byte, DoubleBits, FloatBits, Int, Long, MCString, Position, Short, UByte, UShort,
    VarInt, VarLong, UUID,
};

verus! {

/// A raw collection of bytes used to construct a packet.
pub struct Packet {
    bytes: Vec<u8>,
}

impl View for Packet {
    type V = Seq<u8>;

    closed spec fn view(&self) -> Seq<u8> {
        self.bytes@
    }
}

impl Packet {
    /// Creates a new packet with no ID.
    pub fn new() -> (p: Packet)
        ensures
            p@ == Seq::<u8>::empty(),
    {
        Packet { bytes: Vec::new() }
    }

    /// Creates a new packet that starts with the ID `id`.
    pub fn new_with_id(id: u8) -> (p: Packet)
        ensures
            p@ == seq![id],
    {
        Packet { bytes: vec![id] }
    }

    /// Appends `bytes` to the packet.
    pub fn add(&mut self, bytes: &Vec<u8>)
        ensures
            final(self)@ == old(self)@ + bytes@,
    {
        let ghost start = self.bytes@;
        for i in 0..bytes.len()
            invariant
                self.bytes@ == start + bytes@.take(i as int),
        {
            self.bytes.push(bytes[i]);
            proof {
                assert(bytes@.take(i + 1) == bytes@.take(i as int).push(bytes@[i as int]));
            }
        }
        proof {
            assert(bytes@.take(bytes@.len() as int) == bytes@);
        }
    }

    /// Appends a single byte to the packet.
    pub fn add_byte(&mut self, byte: u8)
        ensures
            final(self)@ == old(self)@.push(byte),
    {
        self.bytes.push(byte);
    }

    /// The packet's bytes, prefixed with their number as a `VarInt`.
    pub fn get_bytes_with_length(&self) -> (out: Vec<u8>)
        ensures
            out@ == varint_bytes(self@.len() as i32) + self@,
    {
        let len = VarInt(self.bytes.len() as i32);
        let mut bytes: Vec<u8> = Vec::new();
        bytes.append(&mut len.to_bytes());
        bytes.append(&mut self.bytes.clone());
        bytes
    }

    /// The packet's bytes, with no length prefix.
    pub fn get_bytes(&self) -> (out: Vec<u8>)
        ensures
            out@ == self@,
    {
        let mut bytes = Vec::new();
        bytes.append(&mut self.bytes.clone());
        bytes
    }

    /// The number of bytes in the packet.
    pub fn size(&self) -> (n: usize)
        ensures
            n == self@.len(),
    {
        self.bytes.len()
    }
}

/// The byte at `pos`, and the position after it.
pub open spec fn read_u8(buf: Seq<u8>, pos: nat) -> Option<(u8, nat)> {
    if pos < buf.len() {
        Some((buf[pos as int], pos + 1))
    } else {
        None
    }
}

/// The boolean at `pos`: the byte must be `0x00` or `0x01`.
pub open spec fn read_bool(buf: Seq<u8>, pos: nat) -> Option<(bool, nat)> {
    if pos < buf.len() && buf[pos as int] <= 1 {
        Some((buf[pos as int] == 1, pos + 1))
    } else {
        None
    }
}

/// The `n`-byte big-endian number at `pos`.
pub open spec fn read_be(buf: Seq<u8>, pos: nat, n: nat) -> Option<(nat, nat)> {
    if pos + n <= buf.len() {
        Some((be_value(buf.subrange(pos as int, (pos + n) as int)), pos + n))
    } else {
        None
    }
}

/// Whether a `VarInt` can be read at `pos` without panicking: the buffer has a byte
/// there, and the number either ends within five bytes or the buffer ends first.
pub open spec fn varint_readable(buf: Seq<u8>, pos: nat) -> bool {
    pos < buf.len() && (ends_within(buf.skip(pos as int), 5) || buf.len() - pos <= 5)
}

/// The `VarInt` at `pos` and the position after it. When the buffer ends before the
/// number does, the result is `0` and the position does not move.
pub open spec fn read_varint(buf: Seq<u8>, pos: nat) -> Option<(i32, nat)> {
    if varint_readable(buf, pos) {
        match encoded_len(buf.skip(pos as int)) {
            Some(n) => Some((varint_at_start(buf.skip(pos as int)).unwrap(), pos + n)),
            None => Some((0, pos)),
        }
    } else {
        None
    }
}

/// Whether a `VarLong` can be read at `pos` without panicking.
pub open spec fn varlong_readable(buf: Seq<u8>, pos: nat) -> bool {
    pos < buf.len() && (ends_within(buf.skip(pos as int), 10) || buf.len() - pos <= 10)
}

/// The `VarLong` at `pos` and the position after it. When the buffer ends before the
/// number does, the result is `0` and the position does not move.
pub open spec fn read_varlong(buf: Seq<u8>, pos: nat) -> Option<(i64, nat)> {
    if varlong_readable(buf, pos) {
        match encoded_len(buf.skip(pos as int)) {
            Some(n) => Some((varlong_at_start(buf.skip(pos as int)).unwrap(), pos + n)),
            None => Some((0, pos)),
        }
    } else {
        None
    }
}

/// The string at `pos` and the position after it: the text is read as `MCString`
/// reads it, and the position moves past the length prefix as it was written and then
/// past the text.
pub open spec fn read_string(buf: Seq<u8>, pos: nat) -> Option<(Seq<char>, nat)> {
    let rest = buf.skip(pos as int);
    if pos < buf.len() && mcstring_readable(rest) {
        let len = varint_at_start(rest).unwrap();
        let payload = mcstring_payload(rest, len);
        let n = encoded_len(rest).unwrap();
        if valid_utf8(payload) && pos + n + len <= usize::MAX {
            Some((decode_utf8(payload), (pos + n + len) as nat))
        } else {
            None
        }
    } else {
        None
    }
}

/// The position packed in the eight bytes at `pos`, as `Position::from_bytes` unpacks it.
pub open spec fn read_position(buf: Seq<u8>, pos: nat) -> Option<((int, int, int), nat)> {
    match read_be(buf, pos, 8) {
        Some((v, next)) => Some(
            (((v / 0x40_0000_0000) as int, (v % 0x1000) as int, ((v / 0x1000) % 0x400_0000) as int), next),
        ),
        None => None,
    }
}

/// Walks a packet's bytes and reads fields from them in order.
pub struct PacketDecoder<'a> {
    buf: &'a Vec<u8>,
    ind: usize,
}

impl<'a> PacketDecoder<'a> {
    /// The bytes being read.
    pub closed spec fn buffer(&self) -> Seq<u8> {
        self.buf@
    }

    /// The position of the next byte to read.
    pub closed spec fn index(&self) -> nat {
        self.ind as nat
    }

    /// The buffer's length fits in a `usize`.
    proof fn lemma_len_fits(&self)
        ensures
            self.buf@.len() <= usize::MAX,
    {
        assert(self.buf.len() == self.buf@.len());
    }

    /// A decoder for `buf` that starts at index 1, past the packet's ID.
    pub fn new(buf: &'a Vec<u8>) -> (pd: PacketDecoder<'a>)
        ensures
            pd.buffer() == buf@,
            pd.index() == 1,
    {
        PacketDecoder {
            buf,
            ind: 1,  // Start at 1 to skip the packet type signature
        }
    }

    /// A decoder for `buf` that starts at index `ind`.
    pub fn with_index(buf: &'a Vec<u8>, ind: usize) -> (pd: PacketDecoder<'a>)
        ensures
            pd.buffer() == buf@,
            pd.index() == ind,
    {
        PacketDecoder { buf, ind }
    }

    /// The number of bytes being read.
    pub fn buffer_len(&self) -> (n: usize)
        ensures
            n == self.buffer().len(),
    {
        self.buf.len()
    }

    /// The position after the layout entry of kind `kind` that starts at the index, if
    /// one can be read there.
    pub fn field_end_here(&self, kind: FieldKind) -> (r: Option<usize>)
        ensures
            match read_field(self.buffer(), self.index(), kind) {
                Some((_, p)) => r matches Some(q) && q == p,
                None => r is None,
            },
    {
        field_end(self.buf, self.ind, kind)
    }

    /// The position of the next byte to read.
    pub fn get_index(&self) -> (i: usize)
        ensures
            i == self.index(),
    {
        self.ind
    }

    /// Reads a boolean: the byte must be `0x00` or `0x01`.
    pub fn next_bool(&mut self) -> (b: Boolean)
        requires
            read_bool(old(self).buffer(), old(self).index()) is Some,
        ensures
            final(self).buffer() == old(self).buffer(),
            read_bool(old(self).buffer(), old(self).index()) == Some((b.0, final(self).index())),
    {
        proof {
            self.lemma_len_fits();
        }
        self.ind += 1;
        match self.buf[self.ind - 1] {
            0x00 => Boolean(false),
            _ => Boolean(true),
        }
    }

    /// Reads a signed byte.
    pub fn next_byte(&mut self) -> (b: Byte)
        requires
            read_u8(old(self).buffer(), old(self).index()) is Some,
        ensures
            final(self).buffer() == old(self).buffer(),
            read_u8(old(self).buffer(), old(self).index()) == Some(
                (b.0 as u8, final(self).index()),
            ),
    {
        proof {
            self.lemma_len_fits();
        }
        self.ind += 1;
        let b = self.buf[self.ind - 1];
        proof {
            assert((b as i8) as u8 == b) by (bit_vector);
        }
        Byte(b as i8)
    }

    /// Reads an unsigned byte.
    pub fn next_ubyte(&mut self) -> (b: UByte)
        requires
            read_u8(old(self).buffer(), old(self).index()) is Some,
        ensures
            final(self).buffer() == old(self).buffer(),
            read_u8(old(self).buffer(), old(self).index()) == Some((b.0, final(self).index())),
    {
        proof {
            self.lemma_len_fits();
        }
        self.ind += 1;
        UByte(self.buf[self.ind - 1])
    }

    /// Reads a big-endian signed 16-bit integer.
    pub fn next_short(&mut self) -> (v: Short)
        requires
            read_be(old(self).buffer(), old(self).index(), 2) is Some,
        ensures
            final(self).buffer() == old(self).buffer(),
            read_be(old(self).buffer(), old(self).index(), 2) matches Some((n, next)) && v.0 == (
            n as u16) as i16 && next == final(self).index(),
    {
        proof {
            self.lemma_len_fits();
        }
        let bytes = extract_16(self.buf, self.ind);
        self.ind += 2;
        Short::from_bytes(&bytes)
    }

    /// Reads a big-endian unsigned 16-bit integer.
    pub fn next_ushort(&mut self) -> (v: UShort)
        requires
            read_be(old(self).buffer(), old(self).index(), 2) is Some,
        ensures
            final(self).buffer() == old(self).buffer(),
            read_be(old(self).buffer(), old(self).index(), 2) == Some(
                (v.0 as nat, final(self).index()),
            ),
    {
        proof {
            self.lemma_len_fits();
        }
        let bytes = extract_16(self.buf, self.ind);
        self.ind += 2;
        UShort::from_bytes(&bytes)
    }

    /// Reads a big-endian signed 32-bit integer.
    pub fn next_int(&mut self) -> (v: Int)
        requires
            read_be(old(self).buffer(), old(self).index(), 4) is Some,
        ensures
            final(self).buffer() == old(self).buffer(),
            read_be(old(self).buffer(), old(self).index(), 4) matches Some((n, next)) && v.0 == (
            n as u32) as i32 && next == final(self).index(),
    {
        proof {
            self.lemma_len_fits();
        }
        let bytes = extract_32(self.buf, self.ind);
        self.ind += 4;
        Int::from_bytes(&bytes)
    }

    /// Reads a big-endian signed 64-bit integer.
    pub fn next_long(&mut self) -> (v: Long)
        requires
            read_be(old(self).buffer(), old(self).index(), 8) is Some,
        ensures
            final(self).buffer() == old(self).buffer(),
            read_be(old(self).buffer(), old(self).index(), 8) matches Some((n, next)) && v.0 == (
            n as u64) as i64 && next == final(self).index(),
    {
        proof {
            self.lemma_len_fits();
        }
        let bytes = extract_64(self.buf, self.ind);
        self.ind += 8;
        Long::from_bytes(&bytes)
    }

    /// Reads the four bytes of a single-precision float.
    pub fn next_float(&mut self) -> (v: FloatBits)
        requires
            read_be(old(self).buffer(), old(self).index(), 4) is Some,
        ensures
            final(self).buffer() == old(self).buffer(),
            read_be(old(self).buffer(), old(self).index(), 4) == Some(
                (v.0 as nat, final(self).index()),
            ),
    {
        proof {
            self.lemma_len_fits();
        }
        let bytes = extract_32(self.buf, self.ind);
        self.ind += 4;
        FloatBits::from_bytes(&bytes)
    }

    /// Reads the eight bytes of a double-precision float.
    pub fn next_double(&mut self) -> (v: DoubleBits)
        requires
            read_be(old(self).buffer(), old(self).index(), 8) is Some,
        ensures
            final(self).buffer() == old(self).buffer(),
            read_be(old(self).buffer(), old(self).index(), 8) == Some(
                (v.0 as nat, final(self).index()),
            ),
    {
        proof {
            self.lemma_len_fits();
        }
        let bytes = extract_64(self.buf, self.ind);
        self.ind += 8;
        DoubleBits::from_bytes(&bytes)
    }

    /// Reads a string: a `VarInt` length, then that many bytes of UTF-8.
    pub fn next_string(&mut self) -> (v: MCString)
        requires
            read_string(old(self).buffer(), old(self).index()) is Some,
        ensures
            final(self).buffer() == old(self).buffer(),
            read_string(old(self).buffer(), old(self).index()) == Some(
                (v.0@, final(self).index()),
            ),
    {
        proof {
            self.lemma_len_fits();
        }
        let ghost rest = self.buf@.skip(self.ind as int);
        proof {
            lemma_encoded_len(rest);
        }
        let (vi, vi_len) = VarInt::from_vec(self.buf, self.ind);
        let str = MCString::from_bytes(&self.buf.as_slice()[self.ind..self.buf.len()]);
        self.ind += vi_len + vi.0 as usize;
        match str {
            Ok(s) => s,
            Err(_) => {
                proof {
                    assert(false);
                }
                MCString(String::new())
            },
        }
    }

    /// Reads a `VarInt`. When the buffer ends before the number does, the result is `0`
    /// and the index does not move.
    pub fn next_varint(&mut self) -> (v: VarInt)
        requires
            read_varint(old(self).buffer(), old(self).index()) is Some,
        ensures
            final(self).buffer() == old(self).buffer(),
            read_varint(old(self).buffer(), old(self).index()) == Some(
                (v.0, final(self).index()),
            ),
    {
        proof {
            self.lemma_len_fits();
        }
        let ghost rest = self.buf@.skip(self.ind as int);
        proof {
            lemma_encoded_len(rest);
        }
        let (vi, vi_len) = VarInt::from_vec(self.buf, self.ind);
        self.ind += vi_len;
        vi
    }

    /// Reads a `VarLong`. When the buffer ends before the number does, the result is `0`
    /// and the index does not move.
    pub fn next_varlong(&mut self) -> (v: VarLong)
        requires
            read_varlong(old(self).buffer(), old(self).index()) is Some,
        ensures
            final(self).buffer() == old(self).buffer(),
            read_varlong(old(self).buffer(), old(self).index()) == Some(
                (v.0, final(self).index()),
            ),
    {
        proof {
            self.lemma_len_fits();
        }
        let ghost rest = self.buf@.skip(self.ind as int);
        proof {
            lemma_encoded_len(rest);
        }
        let (vi, vi_len) = VarLong::from_vec(self.buf, self.ind);
        self.ind += vi_len;
        vi
    }

    /// Reads an uncompressed NBT compound and moves past it. Its layout must pass
    /// `nbt_scan`, and `quartz_nbt` must read it.
    pub fn next_nbt(&mut self) -> (tag: NBTTag)
        requires
            nbt_root_end(old(self).buffer(), old(self).index() as int) is Some,
            nbt_read(old(self).buffer().skip(old(self).index() as int)) is Some,
        ensures
            final(self).buffer() == old(self).buffer(),
            nbt_read(old(self).buffer().skip(old(self).index() as int)) == Some(
                ((final(self).index() - old(self).index()) as nat, nbt_long_arrays(tag.0)),
            ),
            old(self).index() <= final(self).index(),
    {
        let (compound, end) = read_compound_at(self.buf, self.ind).unwrap();
        self.ind = end;
        NBTTag(compound)
    }

    /// Reads a packed block position.
    pub fn next_position(&mut self) -> (p: Position)
        requires
            read_position(old(self).buffer(), old(self).index()) is Some,
        ensures
            final(self).buffer() == old(self).buffer(),
            read_position(old(self).buffer(), old(self).index()) == Some(
                ((p.0 as int, p.1 as int, p.2 as int), final(self).index()),
            ),
    {
        proof {
            self.lemma_len_fits();
        }
        let big = Position::from_bytes(&extract_64(self.buf, self.ind));
        self.ind += 8;
        big
    }

    /// Reads an angle: one unsigned byte.
    pub fn next_angle(&mut self) -> (a: Angle)
        requires
            read_u8(old(self).buffer(), old(self).index()) is Some,
        ensures
            final(self).buffer() == old(self).buffer(),
            read_u8(old(self).buffer(), old(self).index()) == Some((a.0, final(self).index())),
    {
        proof {
            self.lemma_len_fits();
        }
        self.next_ubyte()
    }

    /// Reads a UUID: two big-endian 64-bit halves, most significant first, from the
    /// sixteen bytes at the index.
    pub fn next_uuid(&mut self) -> (u: UUID)
        requires
            old(self).index() + 16 <= old(self).buffer().len(),
        ensures
            final(self).buffer() == old(self).buffer(),
            final(self).index() == old(self).index() + 16,
            u.0[0] as nat == be_value(
                old(self).buffer().subrange(old(self).index() as int, old(self).index() as int + 8),
            ),
            u.0[1] as nat == be_value(
                old(self).buffer().subrange(
                    old(self).index() as int + 8,
                    old(self).index() as int + 16,
                ),
            ),
    {
        proof {
            self.lemma_len_fits();
        }
        let b1 = extract_64(self.buf, self.ind);
        let b2 = extract_64(self.buf, self.ind + 8);
        self.ind += 16;
        UUID([crate::network::fixed::u64_from_be(&b1), crate::network::fixed::u64_from_be(&b2)])
    }
}

// These functions extract arrays of specific length from a given buffer at a starting
// index.

fn extract_8(buf: &Vec<u8>, start: usize) -> (out: [u8; 1])
    requires
        start + 1 <= buf@.len(),
    ensures
        out@ == buf@.subrange(start as int, start + 1),
{
    proof {
        assert(buf.len() == buf@.len());
    }
    let out = [buf[start]];
    assert(out@ =~= buf@.subrange(start as int, start + 1));
    out
}

fn extract_16(buf: &Vec<u8>, start: usize) -> (out: [u8; 2])
    requires
        start + 2 <= buf@.len(),
    ensures
        out@ == buf@.subrange(start as int, start + 2),
{
    proof {
        assert(buf.len() == buf@.len());
    }
    let out = [buf[start], buf[start + 1]];
    assert(out@ =~= buf@.subrange(start as int, start + 2));
    out
}

fn extract_32(buf: &Vec<u8>, start: usize) -> (out: [u8; 4])
    requires
        start + 4 <= buf@.len(),
    ensures
        out@ == buf@.subrange(start as int, start + 4),
{
    proof {
        assert(buf.len() == buf@.len());
    }
    let out = [buf[start], buf[start + 1], buf[start + 2], buf[start + 3]];
    assert(out@ =~= buf@.subrange(start as int, start + 4));
    out
}

fn extract_64(buf: &Vec<u8>, start: usize) -> (out: [u8; 8])
    requires
        start + 8 <= buf@.len(),
    ensures
        out@ == buf@.subrange(start as int, start + 8),
{
    proof {
        assert(buf.len() == buf@.len());
    }
    let out = [
        buf[start],
        buf[start + 1],
        buf[start + 2],
        buf[start + 3],
        buf[start + 4],
        buf[start + 5],
        buf[start + 6],
        buf[start + 7],
    ];
    assert(out@ =~= buf@.subrange(start as int, start + 8));
    out
}

fn extract_128(buf: &Vec<u8>, start: usize) -> (out: [u8; 16])
    requires
        start + 16 <= buf@.len(),
    ensures
        out@ == buf@.subrange(start as int, start + 16),
{
    proof {
        assert(buf.len() == buf@.len());
    }
    let out = [
        buf[start],
        buf[start + 1],
        buf[start + 2],
        buf[start + 3],
        buf[start + 4],
        buf[start + 5],
        buf[start + 6],
        buf[start + 7],
        buf[start + 8],
        buf[start + 9],
        buf[start + 10],
        buf[start + 11],
        buf[start + 12],
        buf[start + 13],
        buf[start + 14],
        buf[start + 15],
    ];
    assert(out@ =~= buf@.subrange(start as int, start + 16));
    out
}

} // verus!
