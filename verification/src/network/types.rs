//! The types that make up the fields of packets, with their wire encodings.
use vstd::prelude::*;

use vstd::utf8::{decode_utf8, encode_utf8, valid_utf8};

use crate::network::fixed::{
    be_bytes, be_value, lemma_be_round_trip, lemma_byte_power_values, u16_from_be, u16_to_be,
    u32_from_be, u32_to_be, u64_from_be, u64_to_be,
};
use crate::network::base128::{
    base128_encoding, base128_value, encoded_len, ends_within, leading_value, lemma_encoded_len,
    lemma_encoded_len_at, lemma_encoding_round_trip, lemma_leading_value_of_encoding, lemma_radix_power_values,
    lemma_value_bound, lemma_value_take_step, radix_power, septet,
};

verus! {

/// A boolean: one byte, `0x01` for true and `0x00` for false.
#[derive(Debug, Clone, Copy)]
pub struct Boolean(pub bool);

/// A signed byte.
#[derive(Debug, Clone, Copy)]
pub struct Byte(pub i8);

/// An unsigned byte.
#[derive(Debug, Clone, Copy)]
pub struct UByte(pub u8);

/// A signed 16-bit integer, big-endian.
#[derive(Debug, Clone, Copy)]
pub struct Short(pub i16);

/// An unsigned 16-bit integer, big-endian.
#[derive(Debug, Clone, Copy)]
pub struct UShort(pub u16);

/// A signed 32-bit integer, big-endian.
#[derive(Debug, Clone, Copy)]
pub struct Int(pub i32);

/// A signed 64-bit integer, big-endian.
#[derive(Debug, Clone, Copy)]
pub struct Long(pub i64);

/// A single-precision float as it travels: the 32 bits of its IEEE-754 representation,
/// big-endian. `f32::from_bits` gives the number.
#[derive(Debug, Clone, Copy)]
pub struct FloatBits(pub u32);

/// A double-precision float as it travels: the 64 bits of its IEEE-754 representation,
/// big-endian. `f64::from_bits` gives the number.
#[derive(Debug, Clone, Copy)]
pub struct DoubleBits(pub u64);

/// A UTF-8 string prefixed with its length in bytes as a `VarInt`.
#[derive(Debug, Clone)]
pub struct MCString(pub String);

/// Chat messages travel as JSON strings.
pub type Chat = MCString;

/// Namespaced identifiers travel as strings.
pub type Identifier = MCString;

/// Entity metadata; its encoding is not decoded by this library.
#[derive(Debug, Clone)]
pub struct EntityMetadata();

/// A block position packed into one 64-bit integer: 26 bits of x, 26 bits of z and
/// 12 bits of y, from the most significant end.
#[derive(Debug, Clone, Copy)]
pub struct Position(pub i32, pub i32, pub i32);

/// An angle in steps of 1/256 of a full turn.
pub type Angle = UByte;

/// A 128-bit UUID as two 64-bit halves, most significant first.
#[derive(Debug, Clone, Copy)]
pub struct UUID(pub [u64; 2]);

#[verifier::external_type_specification]
#[verifier::external_body]
pub struct ExFromUtf8Error(std::string::FromUtf8Error);

/// `String::from_utf8`: by its documentation, `Ok` with the string the bytes encode when
/// they are valid UTF-8, and `Err` otherwise.
#[verifier::external_body]
pub(crate) fn string_from_utf8(bytes: Vec<u8>) -> (res: Result<String, std::string::FromUtf8Error>)
    ensures
        res is Ok <==> valid_utf8(bytes@),
        res matches Ok(s) ==> s@ == decode_utf8(bytes@),
{
    String::from_utf8(bytes)
}

/// The bytes of a string as sent: its UTF-8 length as a `VarInt`, then its UTF-8 bytes.
pub open spec fn mcstring_bytes(s: Seq<char>) -> Seq<u8> {
    varint_bytes(encode_utf8(s).len() as i32) + encode_utf8(s)
}

/// The bytes that hold a string's text when a string's length is read as `len`:
/// the `len` bytes after the re-encoded length prefix.
pub open spec fn mcstring_payload(buf: Seq<u8>, len: i32) -> Seq<u8> {
    buf.subrange(varint_bytes(len).len() as int, varint_bytes(len).len() + len)
}

/// Whether a string can be read from the start of `buf` without running off its end:
/// the length prefix is a valid `VarInt`, not negative, and that many bytes follow.
pub open spec fn mcstring_readable(buf: Seq<u8>) -> bool {
    match varint_at_start(buf) {
        Some(len) => 0 <= len && varint_bytes(len).len() + len <= buf.len(),
        None => false,
    }
}

/// The packed 64 bits of a position.
pub open spec fn position_bits(x: i32, y: i32, z: i32) -> nat {
    (x as u64 as nat % 0x400_0000) * 0x40_0000_0000 + (z as u64 as nat % 0x400_0000) * 0x1000 + (
    y as u64 as nat % 0x1000)
}

/// A 32-bit integer written in the variable-length base-128 encoding.
#[derive(Debug, Clone, Copy)]
pub struct VarInt(pub i32);

/// A 64-bit integer written in the variable-length base-128 encoding.
#[derive(Debug, Clone, Copy)]
pub struct VarLong(pub i64);

#[verifier::external_type_specification]
#[verifier::external_body]
pub struct ExIoError(std::io::Error);

/// Reads one byte from `stream` with `std::io::Read::read_exact`. What it returns depends
/// on the stream, so nothing is stated of the byte or of the error.
#[verifier::external_body]
fn read_one_byte<S: std::io::Read>(stream: &mut S) -> (res: Result<u8, std::io::Error>) {
    let mut byte: [u8; 1] = [0];
    match stream.read_exact(&mut byte) {
        Ok(()) => Ok(byte[0]),
        Err(e) => Err(e),
    }
}

/// The seven payload bits of a byte of a variable-length integer.
const PART_U32: u32 = 0x7F;

/// The seven payload bits of a byte of a variable-length integer.
const PART_U64: u64 = 0x7F;

/// The bytes of a `VarInt`: the encoding of its two's-complement bits.
pub open spec fn varint_bytes(v: i32) -> Seq<u8> {
    base128_encoding(v as u32 as nat)
}

/// The bytes of a `VarLong`: the encoding of its two's-complement bits.
pub open spec fn varlong_bytes(v: i64) -> Seq<u8> {
    base128_encoding(v as u64 as nat)
}

/// The `VarInt` at the start of `s`, if it ends within five bytes; digits beyond
/// 32 bits are dropped.
pub open spec fn varint_at_start(s: Seq<u8>) -> Option<i32> {
    match leading_value(s, 5) {
        Some(v) => Some(((v % 0x1_0000_0000) as u32) as i32),
        None => None,
    }
}

/// The `VarLong` at the start of `s`, if it ends within ten bytes; digits beyond
/// 64 bits are dropped.
pub open spec fn varlong_at_start(s: Seq<u8>) -> Option<i64> {
    match leading_value(s, 10) {
        Some(v) => Some(((v % 0x1_0000_0000_0000_0000) as u64) as i64),
        None => None,
    }
}

/// A byte ends a variable-length integer exactly when its high bit is clear.
proof fn lemma_continuation_bit(byte: u8)
    ensures
        (byte & 0x80) == 0 <==> byte < 128,
{
    assert((byte & 0x80) == 0 <==> byte < 128) by (bit_vector);
}

proof fn lemma_u32_low_septets(val: u32)
    ensures
        (val & !0x7Fu32) == 0 <==> val < 128,
        ((val as u8) | !0x7Fu8) == ((val % 128) + 128) as u8,
        val >> 7u32 == val / 128,
{
    assert((val & !0x7Fu32) == 0 <==> val < 128) by (bit_vector);
    assert(((val as u8) | !0x7Fu8) == ((val % 128) + 128) as u8) by (bit_vector);
    assert(val >> 7u32 == val / 128) by (bit_vector);
}

proof fn lemma_u64_low_septets(val: u64)
    ensures
        (val & !0x7Fu64) == 0 <==> val < 128,
        ((val as u8) | !0x7Fu8) == ((val % 128) + 128) as u8,
        val >> 7u64 == val / 128,
{
    assert((val & !0x7Fu64) == 0 <==> val < 128) by (bit_vector);
    assert(((val as u8) | !0x7Fu8) == ((val % 128) + 128) as u8) by (bit_vector);
    assert(val >> 7u64 == val / 128) by (bit_vector);
}

/// Setting the septet `b` at digit `k` of an accumulator that holds `k` digits.
#[verifier::spinoff_prover]
proof fn lemma_u32_add_septet(val: u32, b: u8, k: u32)
    requires
        k < 5,
        (val as nat) < radix_power(k as nat),
    ensures
        (val | (((b as u32) & 0x7F) << (k * 7))) as nat == ((val as nat) + septet(b)
            * radix_power(k as nat)) % 0x1_0000_0000,
{
    lemma_radix_power_values();
    assert(((b as u32) & 0x7F) == b % 128) by (bit_vector);
    let d = (b as u32) & 0x7F;
    assert(d < 128);
    if k == 0 {
        assert(val == 0);
        assert((val | (d << 0u32)) == d) by (bit_vector)
            requires
                val == 0,
        ;
    } else if k == 1 {
        assert((val | (d << 7u32)) == val + d * 0x80) by (bit_vector)
            requires
                val < 0x80,
                d < 128,
        ;
    } else if k == 2 {
        assert((val | (d << 14u32)) == val + d * 0x4000) by (bit_vector)
            requires
                val < 0x4000,
                d < 128,
        ;
    } else if k == 3 {
        assert((val | (d << 21u32)) == val + d * 0x20_0000) by (bit_vector)
            requires
                val < 0x20_0000,
                d < 128,
        ;
    } else {
        assert((val | (d << 28u32)) == (((val as u64) + (d as u64) * 0x1000_0000) % 0x1_0000_0000)
            as u32) by (bit_vector)
            requires
                val < 0x1000_0000,
                d < 128,
        ;
    }
}

/// Setting the septet `b` at digit `k` of an accumulator that holds `k` digits.
#[verifier::spinoff_prover]
proof fn lemma_u64_add_septet(val: u64, b: u8, k: u64)
    requires
        k < 10,
        (val as nat) < radix_power(k as nat),
    ensures
        (val | (((b as u64) & 0x7F) << (k * 7))) as nat == ((val as nat) + septet(b)
            * radix_power(k as nat)) % 0x1_0000_0000_0000_0000,
{
    lemma_radix_power_values();
    assert(((b as u64) & 0x7F) == b % 128) by (bit_vector);
    let d = (b as u64) & 0x7F;
    assert(d < 128);
    assert(((b as u64) & 0x7F) << (k * 7) == d << ((k * 7) as u64));
    if k == 0 {
        assert((val | (d << 0u64)) == d) by (bit_vector)
            requires
                val == 0,
        ;
    } else if k == 1 {
        assert((val | (d << 7u64)) == val + d * 0x80) by (bit_vector)
            requires
                val < 0x80,
                d < 128,
        ;
    } else if k == 2 {
        assert((val | (d << 14u64)) == val + d * 0x4000) by (bit_vector)
            requires
                val < 0x4000,
                d < 128,
        ;
    } else if k == 3 {
        assert((val | (d << 21u64)) == val + d * 0x20_0000) by (bit_vector)
            requires
                val < 0x20_0000,
                d < 128,
        ;
    } else if k == 4 {
        assert((val | (d << 28u64)) == val + d * 0x1000_0000) by (bit_vector)
            requires
                val < 0x1000_0000,
                d < 128,
        ;
    } else if k == 5 {
        assert((val | (d << 35u64)) == val + d * 0x8_0000_0000) by (bit_vector)
            requires
                val < 0x8_0000_0000,
                d < 128,
        ;
    } else if k == 6 {
        assert((val | (d << 42u64)) == val + d * 0x400_0000_0000) by (bit_vector)
            requires
                val < 0x400_0000_0000,
                d < 128,
        ;
    } else if k == 7 {
        assert((val | (d << 49u64)) == val + d * 0x2_0000_0000_0000) by (bit_vector)
            requires
                val < 0x2_0000_0000_0000,
                d < 128,
        ;
    } else if k == 8 {
        assert((val | (d << 56u64)) == val + d * 0x100_0000_0000_0000) by (bit_vector)
            requires
                val < 0x100_0000_0000_0000,
                d < 128,
        ;
    } else {
        assert((val | (d << 63u64)) == (((val as u128) + (d as u128) * 0x8000_0000_0000_0000)
            % 0x1_0000_0000_0000_0000) as u64) by (bit_vector)
            requires
                val < 0x8000_0000_0000_0000,
                d < 128,
        ;
    }
}

impl Boolean {
    /// `0x01` for true, `0x00` for false.
    pub fn to_bytes(&self) -> (out: Vec<u8>)
        ensures
            out@ == (if self.0 {
                seq![0x01u8]
            } else {
                seq![0x00u8]
            }),
    {
        match self.0 {
            true => vec![0x01],
            false => vec![0x00],
        }
    }

    /// Reads the first byte of `val`: `0x00` and `0x01` are the booleans, anything else
    /// (or no byte at all) is `None`.
    pub fn from_bytes(val: &[u8]) -> (res: Option<Boolean>)
        ensures
            val@.len() > 0 && val@[0] == 0 ==> (res matches Some(b) && !b.0),
            val@.len() > 0 && val@[0] == 1 ==> (res matches Some(b) && b.0),
            val@.len() == 0 || val@[0] > 1 ==> res is None,
    {
        if val.len() == 0 {
            return None;
        }
        match val[0] {
            0x00 => Some(Boolean(false)),
            0x01 => Some(Boolean(true)),
            _ => None,
        }
    }
}

impl Byte {
    /// The byte's bits.
    pub fn to_bytes(&self) -> (out: Vec<u8>)
        ensures
            out@ == seq![self.0 as u8],
    {
        vec![self.0 as u8]
    }

    /// The byte read as a signed number.
    pub fn from_bytes(val: &[u8; 1]) -> (res: Byte)
        ensures
            res.0 == val@[0] as i8,
    {
        Byte(val[0] as i8)
    }
}

impl UByte {
    /// The byte.
    pub fn to_bytes(&self) -> (out: Vec<u8>)
        ensures
            out@ == seq![self.0],
    {
        vec![self.0]
    }

    /// The byte.
    pub fn from_bytes(val: &[u8; 1]) -> (res: UByte)
        ensures
            res.0 == val@[0],
    {
        UByte(val[0])
    }
}

impl Short {
    /// The two bytes of the number's two's-complement bits, most significant first.
    pub fn to_bytes(&self) -> (out: Vec<u8>)
        ensures
            out@ == be_bytes(self.0 as u16 as nat, 2),
    {
        u16_to_be(self.0 as u16)
    }

    /// The number whose two's-complement bits are `val`, most significant first.
    pub fn from_bytes(val: &[u8; 2]) -> (res: Short)
        ensures
            res.0 == (be_value(val@) as u16) as i16,
    {
        Short(u16_from_be(val) as i16)
    }
}

impl UShort {
    /// The two bytes of the number, most significant first.
    pub fn to_bytes(&self) -> (out: Vec<u8>)
        ensures
            out@ == be_bytes(self.0 as nat, 2),
    {
        u16_to_be(self.0)
    }

    /// The number whose bytes are `val`, most significant first.
    pub fn from_bytes(val: &[u8; 2]) -> (res: UShort)
        ensures
            res.0 as nat == be_value(val@),
    {
        UShort(u16_from_be(val))
    }
}

impl Int {
    /// The four bytes of the number's two's-complement bits, most significant first.
    pub fn to_bytes(&self) -> (out: Vec<u8>)
        ensures
            out@ == be_bytes(self.0 as u32 as nat, 4),
    {
        u32_to_be(self.0 as u32)
    }

    /// The number whose two's-complement bits are `val`, most significant first.
    pub fn from_bytes(val: &[u8; 4]) -> (res: Int)
        ensures
            res.0 == (be_value(val@) as u32) as i32,
    {
        Int(u32_from_be(val) as i32)
    }
}

impl Long {
    /// The eight bytes of the number's two's-complement bits, most significant first.
    pub fn to_bytes(&self) -> (out: Vec<u8>)
        ensures
            out@ == be_bytes(self.0 as u64 as nat, 8),
    {
        u64_to_be(self.0 as u64)
    }

    /// The number whose two's-complement bits are `val`, most significant first.
    pub fn from_bytes(val: &[u8; 8]) -> (res: Long)
        ensures
            res.0 == (be_value(val@) as u64) as i64,
    {
        Long(u64_from_be(val) as i64)
    }
}

impl FloatBits {
    /// The four bytes of the float's bits, most significant first.
    pub fn to_bytes(&self) -> (out: Vec<u8>)
        ensures
            out@ == be_bytes(self.0 as nat, 4),
    {
        u32_to_be(self.0)
    }

    /// The float whose bits are `val`, most significant first.
    pub fn from_bytes(val: &[u8; 4]) -> (res: FloatBits)
        ensures
            res.0 as nat == be_value(val@),
    {
        FloatBits(u32_from_be(val))
    }
}

impl DoubleBits {
    /// The eight bytes of the double's bits, most significant first.
    pub fn to_bytes(&self) -> (out: Vec<u8>)
        ensures
            out@ == be_bytes(self.0 as nat, 8),
    {
        u64_to_be(self.0)
    }

    /// The double whose bits are `val`, most significant first.
    pub fn from_bytes(val: &[u8; 8]) -> (res: DoubleBits)
        ensures
            res.0 as nat == be_value(val@),
    {
        DoubleBits(u64_from_be(val))
    }
}

impl MCString {
    /// The string's UTF-8 length as a `VarInt`, then its UTF-8 bytes.
    pub fn to_bytes(&self) -> (out: Vec<u8>)
        ensures
            out@ == mcstring_bytes(self.0@),
    {
        let mut out: Vec<u8> = Vec::new();
        let bytes = self.0.as_str().as_bytes();
        out.append(&mut VarInt(bytes.len() as i32).to_bytes());
        out.extend_from_slice(bytes);
        proof {
            assert(out@ =~= mcstring_bytes(self.0@));
        }
        out
    }

    /// Reads a string from the start of `val`: its length as a `VarInt`, then the text.
    /// The text is taken from just after the length prefix as `VarInt::to_bytes` would
    /// write it. Bytes that are not UTF-8 are an `Err`.
    pub fn from_bytes(val: &[u8]) -> (res: Result<MCString, std::string::FromUtf8Error>)
        requires
            mcstring_readable(val@),
        ensures
            ({
                let payload = mcstring_payload(val@, varint_at_start(val@).unwrap());
                &&& res is Ok <==> valid_utf8(payload)
                &&& res matches Ok(s) ==> s.0@ == decode_utf8(payload)
            }),
    {
        let len = VarInt::from_bytes(val).unwrap();
        let start = len.num_bytes();
        let total = val.len();
        assert(0 <= len.0 && start + len.0 <= total);
        let end = (len.0 as usize) + start;
        let str = string_from_utf8(vstd::slice::slice_to_vec(&val[start..end]))?;
        Ok(MCString(str))
    }
}

impl Position {
    /// The packed position as eight bytes, most significant first. Each coordinate keeps
    /// only its low bits: 26 for x and z, 12 for y.
    pub fn to_bytes(&self) -> (out: Vec<u8>)
        ensures
            out@ == be_bytes(position_bits(self.0, self.1, self.2), 8),
    {
        let big = (((self.0 as u64) & 0x3FFFFFF) << 38) | (((self.2 as u64) & 0x3FFFFFF) << 12) | ((
        self.1 as u64) & 0xFFF);
        proof {
            let (x, y, z) = (self.0 as u64, self.1 as u64, self.2 as u64);
            assert(((((x & 0x3FFFFFF) << 38u64) | ((z & 0x3FFFFFF) << 12u64) | (y & 0xFFF)) as int)
                == (x % 0x400_0000) * 0x40_0000_0000 + (z % 0x400_0000) * 0x1000 + (y % 0x1000))
                by (bit_vector);
        }
        u64_to_be(big)
    }

    /// Unpacks a position from eight bytes: x from the top 26 bits, z from the next 26 and
    /// y from the low 12, each read as a non-negative number.
    pub fn from_bytes(val: &[u8; 8]) -> (res: Position)
        ensures
            res.0 == be_value(val@) / 0x40_0000_0000,
            res.1 == be_value(val@) % 0x1000,
            res.2 == (be_value(val@) / 0x1000) % 0x400_0000,
    {
        let big = u64_from_be(val);

        proof {
            assert((big >> 38u64) == big / 0x40_0000_0000) by (bit_vector);
            assert((big & 0xfff) == big % 0x1000) by (bit_vector);
            assert((big << 26u64 >> 38u64) == (big / 0x1000) % 0x400_0000) by (bit_vector);
        }
        let x = (big >> 38) as i32;
        let y = (big & 0xfff) as i32;
        let z = (big << 26 >> 38) as i32;

        Position(x, y, z)
    }
}

impl UUID {
    /// The two halves, each as eight bytes, most significant first.
    pub fn to_bytes(&self) -> (out: Vec<u8>)
        ensures
            out@ == be_bytes(self.0[0] as nat, 8) + be_bytes(self.0[1] as nat, 8),
    {
        let mut bytes = u64_to_be(self.0[0]);
        bytes.append(&mut u64_to_be(self.0[1]));
        bytes
    }

    /// The UUID whose halves are the first and the last eight bytes of `val`.
    pub fn from_bytes(val: &[u8; 16]) -> (res: UUID)
        ensures
            res.0[0] as nat == be_value(val@.take(8)),
            res.0[1] as nat == be_value(val@.skip(8)),
    {
        let mut b1 = [0u8; 8];
        let mut b2 = [0u8; 8];
        for i in 0..16
            invariant
                forall|j: int| 0 <= j < i && j < 8 ==> b1@[j] == val@[j],
                forall|j: int| 8 <= j < i ==> b2@[j - 8] == val@[j],
        {
            if i < 8 {
                b1[i] = val[i];
            }
            if i >= 8 {
                b2[i - 8] = val[i];
            }
        }
        assert(b1@ =~= val@.take(8));
        assert(b2@ =~= val@.skip(8));
        UUID([u64_from_be(&b1), u64_from_be(&b2)])
    }
}

/// Each fixed-width number reads back from the bytes it is written as: `Short`,
/// `UShort`, `Int` and `Long` all survive `to_bytes` followed by `from_bytes`.
pub proof fn law_fixed_width_round_trip(a: i16, b: u16, c: i32, d: i64)
    ensures
        (be_value(be_bytes(a as u16 as nat, 2)) as u16) as i16 == a,
        be_value(be_bytes(b as nat, 2)) == b,
        (be_value(be_bytes(c as u32 as nat, 4)) as u32) as i32 == c,
        (be_value(be_bytes(d as u64 as nat, 8)) as u64) as i64 == d,
{
    lemma_byte_power_values();
    lemma_be_round_trip(a as u16 as nat, 2);
    lemma_be_round_trip(b as nat, 2);
    lemma_be_round_trip(c as u32 as nat, 4);
    lemma_be_round_trip(d as u64 as nat, 8);
    assert(((a as u16) as i16) == a) by (bit_vector);
    assert(((c as u32) as i32) == c) by (bit_vector);
    assert(((d as u64) as i64) == d) by (bit_vector);
}

/// A UUID reads back from the sixteen bytes it is written as.
pub proof fn law_uuid_round_trip(hi: u64, lo: u64)
    ensures
        ({
            let bytes = be_bytes(hi as nat, 8) + be_bytes(lo as nat, 8);
            &&& be_value(bytes.take(8)) == hi
            &&& be_value(bytes.skip(8)) == lo
        }),
{
    lemma_byte_power_values();
    lemma_be_round_trip(hi as nat, 8);
    lemma_be_round_trip(lo as nat, 8);
    let bytes = be_bytes(hi as nat, 8) + be_bytes(lo as nat, 8);
    assert(bytes.take(8) =~= be_bytes(hi as nat, 8));
    assert(bytes.skip(8) =~= be_bytes(lo as nat, 8));
}

/// A string reads back from the bytes it is written as, when its UTF-8 length fits in
/// a `VarInt`.
pub proof fn law_mcstring_round_trip(s: Seq<char>)
    requires
        encode_utf8(s).len() <= i32::MAX,
    ensures
        mcstring_readable(mcstring_bytes(s)),
        valid_utf8(mcstring_payload(mcstring_bytes(s), encode_utf8(s).len() as i32)),
        varint_at_start(mcstring_bytes(s)) == Some(encode_utf8(s).len() as i32),
        decode_utf8(mcstring_payload(mcstring_bytes(s), encode_utf8(s).len() as i32)) == s,
{
    broadcast use vstd::utf8::encode_utf8_valid_utf8, vstd::utf8::encode_utf8_decode_utf8;

    let text = encode_utf8(s);
    let len = text.len() as i32;
    let prefix = varint_bytes(len);
    law_varint_round_trip(len);
    lemma_radix_power_values();
    lemma_encoding_round_trip(len as u32 as nat);
    law_leading_value_ignores_rest(prefix, text, 5);
    assert(mcstring_payload(prefix + text, len) =~= text);
}

/// A position whose coordinates fit their fields (x and z in `0..2^26`, y in `0..2^12`)
/// reads back from the bytes it is written as. Negative coordinates do not: the fields
/// are read back as non-negative numbers.
pub proof fn law_position_round_trip(x: i32, y: i32, z: i32)
    requires
        0 <= x < 0x400_0000,
        0 <= y < 0x1000,
        0 <= z < 0x400_0000,
    ensures
        ({
            let v = be_value(be_bytes(position_bits(x, y, z), 8));
            &&& v / 0x40_0000_0000 == x
            &&& v % 0x1000 == y
            &&& (v / 0x1000) % 0x400_0000 == z
        }),
{
    lemma_byte_power_values();
    let bits = position_bits(x, y, z);
    assert(bits == x * 0x40_0000_0000 + z * 0x1000 + y);
    assert(bits < 0x1_0000_0000_0000_0000);
    lemma_be_round_trip(bits, 8);
    assert(bits / 0x1000 == x * 0x400_0000 + z);
}

/// Reading the bytes of a `VarInt` back gives the number: decoding `to_bytes()` with
/// `from_bytes` returns the same value, from at most five bytes.
pub proof fn law_varint_round_trip(v: i32)
    ensures
        varint_at_start(varint_bytes(v)) == Some(v),
        varint_bytes(v).len() <= 5,
{
    lemma_radix_power_values();
    lemma_leading_value_of_encoding(v as u32 as nat, 5);
    assert(((v as u32) as i32) == v) by (bit_vector);
}

/// Reading the bytes of a `VarLong` back gives the number: decoding `to_bytes()` with
/// `from_bytes` returns the same value, from at most ten bytes.
pub proof fn law_varlong_round_trip(v: i64)
    ensures
        varlong_at_start(varlong_bytes(v)) == Some(v),
        varlong_bytes(v).len() <= 10,
{
    lemma_radix_power_values();
    lemma_leading_value_of_encoding(v as u64 as nat, 10);
    assert(((v as u64) as i64) == v) by (bit_vector);
}

/// A number is read the same whatever bytes follow it.
pub proof fn law_leading_value_ignores_rest(e: Seq<u8>, rest: Seq<u8>, max: nat)
    requires
        encoded_len(e) == Some(e.len()),
    ensures
        leading_value(e + rest, max) == leading_value(e, max),
        encoded_len(e + rest) == Some(e.len()),
{
    lemma_encoded_len(e);
    let s = e + rest;
    assert forall|i: int| 0 <= i < e.len() - 1 implies s[i] >= 128 by {
        assert(s[i] == e[i]);
    }
    lemma_encoded_len_at(s, e.len());
    assert(s.take(e.len() as int) =~= e);
    assert(e.take(e.len() as int) =~= e);
}

/// What one more byte of a `VarInt` read from a stream gives: the number goes on, with
/// the bytes read so far and the value so far; it ends, with its value and its length;
/// or it is too big, after a sixth byte.
#[derive(Debug, Clone, Copy)]
pub enum VarIntStep {
    More(u32, u32),
    Done(VarInt, usize),
    TooBig,
}

/// The step after `byte`, with `size` bytes read so far and the value `val` so far: a
/// sixth byte makes the number too big; otherwise the byte's seven low bits go in at
/// place `size`, and the number ends when the byte's high bit is clear.
pub open spec fn varint_step(size: u32, val: u32, byte: u8) -> VarIntStep {
    if size >= 5 {
        VarIntStep::TooBig
    } else {
        let v = val | (((byte as u32) & 0x7F) << ((size * 7) as u32));
        if byte < 128 {
            VarIntStep::Done(VarInt(v as i32), (size + 1) as usize)
        } else {
            VarIntStep::More((size + 1) as u32, v)
        }
    }
}

/// The steps of the bytes `bytes`, read one by one from the start; once the number has
/// ended or is too big, more bytes change nothing.
pub open spec fn varint_fold(bytes: Seq<u8>) -> VarIntStep
    decreases bytes.len(),
{
    if bytes.len() == 0 {
        VarIntStep::More(0, 0)
    } else {
        match varint_fold(bytes.drop_last()) {
            VarIntStep::More(s, v) => varint_step(s, v, bytes.last()),
            other => other,
        }
    }
}

/// The step after `byte`, with `size` bytes read so far and the value `val` so far.
pub fn varint_feed(size: u32, val: u32, byte: u8) -> (r: VarIntStep)
    ensures
        r == varint_step(size, val, byte),
{
    if size >= 5 {
        return VarIntStep::TooBig;
    }
    proof {
        lemma_continuation_bit(byte);
    }
    let v = val | ((byte as u32 & PART_U32) << (size * 7));
    if (byte & 0x80) == 0 {
        VarIntStep::Done(VarInt(v as i32), (size + 1) as usize)
    } else {
        VarIntStep::More(size + 1, v)
    }
}

impl VarInt {
    /// Decodes the `VarInt` at the start of `buf`.
    pub fn from_bytes(buf: &[u8]) -> (res: Option<VarInt>)
        requires
            varint_at_start(buf@) is Some,
        ensures
            res matches Some(v) && Some(v.0) == varint_at_start(buf@),
    {
        let ghost s = buf@;
        proof {
            lemma_encoded_len(s);
        }
        let ghost n: nat = encoded_len(s).unwrap();
        let mut size: u32 = 0;
        let mut val: u32 = 0;

        let mut index: usize = 0;
        let mut byte = buf[index];

        loop
            invariant_except_break
                size as int == index as int,
                index < n,
                byte == s[index as int],
                (val as nat) == base128_value(s.take(index as int)) % 0x1_0000_0000,
                base128_value(s.take(index as int)) < radix_power(index as nat),
            invariant
                s == buf@,
                encoded_len(s) == Some(n),
                1 <= n <= 5,
                n <= s.len(),
                s[n - 1] < 128,
                forall|i: int| 0 <= i < n - 1 ==> s[i] >= 128,
            ensures
                (val as nat) == base128_value(s.take(n as int)) % 0x1_0000_0000,
            decreases n - index,
        {
            proof {
                lemma_radix_power_values();
                lemma_u32_add_septet(val, byte, size);
                lemma_continuation_bit(byte);
                lemma_value_take_step(s, index as int);
                lemma_value_bound(s.take(index + 1));
            }
            val |= (byte as u32 & PART_U32) << (size * 7);
            size += 1;
            if size > 5 {
                return None;
            }
            if (byte & 0x80) == 0 {
                break;
            }
            index += 1;
            byte = buf[index];
        }
        Some(VarInt(val as i32))
    }

    /// Decodes the `VarInt` that starts at `buf[start]`, returning it with the number of
    /// bytes it takes, or `(VarInt(0), 0)` when the buffer ends before the number does.
    pub fn from_vec(buf: &Vec<u8>, start: usize) -> (res: (VarInt, usize))
        requires
            start < buf.len(),
            ends_within(buf@.skip(start as int), 5) || buf.len() - start <= 5,
        ensures
            match encoded_len(buf@.skip(start as int)) {
                Some(n) => Some(res.0.0) == varint_at_start(buf@.skip(start as int)) && res.1
                    == n,
                None => res.0.0 == 0 && res.1 == 0,
            },
    {
        let ghost s = buf@.skip(start as int);
        proof {
            lemma_encoded_len(s);
        }
        let mut size: u32 = 0;
        let mut val: u32 = 0;

        let mut index = 0usize;
        let mut byte = buf[index + start];

        loop
            invariant_except_break
                size as int == index as int,
                index < 5,
                index < s.len(),
                byte == s[index as int],
                forall|i: int| 0 <= i < index ==> s[i] >= 128,
                (val as nat) == base128_value(s.take(index as int)) % 0x1_0000_0000,
                base128_value(s.take(index as int)) < radix_power(index as nat),
            invariant
                s == buf@.skip(start as int),
                start < buf.len(),
                ends_within(s, 5) || s.len() <= 5,
                encoded_len(s) matches Some(n) ==> {
                    &&& 1 <= n <= s.len()
                    &&& s[n - 1] < 128
                    &&& forall|i: int| 0 <= i < n - 1 ==> s[i] >= 128
                },
                encoded_len(s) is None ==> forall|i: int| 0 <= i < s.len() ==> s[i] >= 128,
            ensures
                encoded_len(s) == Some((index + 1) as nat),
                (val as nat) == base128_value(s.take(index + 1)) % 0x1_0000_0000,
            decreases s.len() - index,
        {
            proof {
                lemma_radix_power_values();
                lemma_u32_add_septet(val, byte, size);
                lemma_continuation_bit(byte);
                lemma_value_take_step(s, index as int);
                lemma_value_bound(s.take(index + 1));
            }
            val |= (byte as u32 & PART_U32) << (size * 7);
            size += 1;
            if size > 5 {
                return (VarInt(0), 0);
            }
            if (byte & 0x80) == 0 {
                proof {
                    lemma_encoded_len_at(s, (index + 1) as nat);
                }
                break;
            }
            index += 1;
            if index + start < buf.len() {
                proof {
                    if index >= 5 {
                        assert(s[(encoded_len(s).unwrap() - 1) as int] < 128);
                    }
                }
                byte = buf[index + start];
            } else {
                return (VarInt(0), 0);
            }
        }
        (VarInt(val as i32), index + 1)
    }

    /// Reads a `VarInt` from `stream`, consuming its bytes, and returns it with the number
    /// of bytes read: each byte read is handed to `varint_feed`, which decides whether the
    /// number goes on, ends, or is too big. A stream error while reading is returned as
    /// `Err`. When five bytes in a row carry the continuation bit, a sixth is read: the
    /// number is too big for a `VarInt`, and `Ok(None)` is returned once that byte has
    /// been read.
    pub fn from_stream<S: std::io::Read>(stream: &mut S) -> (res: Result<
        Option<(VarInt, usize)>,
        std::io::Error,
    >)
        ensures
            res matches Ok(Some((v, n))) ==> 1 <= n <= 5 && exists|bytes: Seq<u8>|
                #![auto]
                bytes.len() == n && varint_fold(bytes) == VarIntStep::Done(v, n)
                    && encoded_len(bytes) == Some(n as nat) && varint_at_start(bytes) == Some(v.0),
            res matches Ok(None) ==> exists|bytes: Seq<u8>|
                #![auto]
                bytes.len() == 6 && varint_fold(bytes) is TooBig && forall|i: int|
                    0 <= i < 5 ==> bytes[i] >= 128,
    {
        let mut size: u32 = 0;
        let mut val: u32 = 0;
        let ghost mut bytes: Seq<u8> = Seq::empty();
        let mut result: (VarInt, usize) = (VarInt(0), 0);
        loop
            invariant_except_break
                size as int == bytes.len(),
                size <= 5,
                varint_fold(bytes) == VarIntStep::More(size, val),
                forall|i: int| 0 <= i < bytes.len() ==> bytes[i] >= 128,
                (val as nat) == base128_value(bytes) % 0x1_0000_0000,
                base128_value(bytes) < radix_power(bytes.len()),
            ensures
                1 <= size <= 5,
                size as int == bytes.len(),
                result == (VarInt(val as i32), size as usize),
                varint_fold(bytes) == VarIntStep::Done(result.0, result.1),
                encoded_len(bytes) == Some(bytes.len()),
                (val as nat) == base128_value(bytes) % 0x1_0000_0000,
            decreases 6 - size,
        {
            let byte: u8 = match read_one_byte(stream) {
                Ok(b) => b,
                Err(e) => return Err(e),
            };
            let ghost next = bytes.push(byte);
            assert(next.drop_last() =~= bytes);
            let step = varint_feed(size, val, byte);
            match step {
                VarIntStep::TooBig => {
                    assert(varint_fold(next) is TooBig);
                    return Ok(None);
                },
                VarIntStep::More(s, v) => {
                    proof {
                        lemma_radix_power_values();
                        lemma_u32_add_septet(val, byte, size);
                        lemma_continuation_bit(byte);
                        assert(next.take(bytes.len() as int) =~= bytes);
                        assert(next.take(next.len() as int) =~= next);
                        lemma_value_take_step(next, bytes.len() as int);
                        lemma_value_bound(next);
                        bytes = next;
                    }
                    size = s;
                    val = v;
                },
                VarIntStep::Done(v, n) => {
                    proof {
                        lemma_radix_power_values();
                        lemma_u32_add_septet(val, byte, size);
                        lemma_continuation_bit(byte);
                        assert(next.take(bytes.len() as int) =~= bytes);
                        assert(next.take(next.len() as int) =~= next);
                        lemma_value_take_step(next, bytes.len() as int);
                        lemma_value_bound(next);
                        bytes = next;
                        lemma_encoded_len_at(bytes, bytes.len());
                        let w: u32 = val | (((byte as u32) & 0x7F) << ((size * 7) as u32));
                        assert(v.0 == w as i32);
                        assert((w as i32) as u32 == w) by (bit_vector);
                    }
                    size = size + 1;
                    val = v.0 as u32;
                    result = (v, n);
                    break;
                },
            }
        }
        proof {
            assert(bytes.take(bytes.len() as int) =~= bytes);
            assert(varint_at_start(bytes) == Some(val as i32));
        }
        Ok(Some(result))
    }

    /// The encoding of this number, least significant septet first.
    pub fn to_bytes(&self) -> (out: Vec<u8>)
        ensures
            out@ == varint_bytes(self.0),
    {
        let mut buf: Vec<u8> = Vec::new();

        let mut val = self.0 as u32;
        loop
            invariant
                buf@ + base128_encoding(val as nat) == varint_bytes(self.0),
            decreases val,
        {
            proof {
                lemma_u32_low_septets(val);
            }
            if (val & !PART_U32) == 0 {
                buf.push(val as u8);
                proof {
                    assert(base128_encoding(val as nat) == seq![val as u8]);
                }
                return buf;
            }
            let ghost prev = buf@;
            buf.push(val as u8 | !0x7F);
            proof {
                let v = val as nat;
                assert(base128_encoding(v) == seq![((v % 128) + 128) as u8] + base128_encoding(
                    v / 128,
                ));
                assert(buf@ + base128_encoding(v / 128) =~= prev + base128_encoding(v));
            }
            val >>= 7;
        }
    }

    /// The number of bytes of this number's encoding.
    pub fn num_bytes(&self) -> (res: usize)
        ensures
            res == varint_bytes(self.0).len(),
    {
        let mut bytes: usize = 1;
        let mut val = self.0 as u32;
        proof {
            lemma_radix_power_values();
            lemma_leading_value_of_encoding(val as nat, 5);
        }
        loop
            invariant
                bytes >= 1,
                bytes - 1 + base128_encoding(val as nat).len() == varint_bytes(self.0).len(),
                varint_bytes(self.0).len() <= 5,
            decreases val,
        {
            proof {
                lemma_radix_power_values();
                lemma_u32_low_septets(val);
                lemma_leading_value_of_encoding(val as nat, 5);
            }
            if (val & !PART_U32) == 0 {
                return bytes;
            }
            proof {
                let v = val as nat;
                assert(base128_encoding(v) == seq![((v % 128) + 128) as u8] + base128_encoding(
                    v / 128,
                ));
                lemma_leading_value_of_encoding(v / 128, 5);
            }
            val >>= 7;
            bytes += 1;
        }
    }
}

impl VarLong {
    /// The encoding of this number, least significant septet first.
    pub fn to_bytes(&self) -> (out: Vec<u8>)
        ensures
            out@ == varlong_bytes(self.0),
    {
        let mut buf: Vec<u8> = Vec::new();

        let mut val = self.0 as u64;
        loop
            invariant
                buf@ + base128_encoding(val as nat) == varlong_bytes(self.0),
            decreases val,
        {
            proof {
                lemma_u64_low_septets(val);
            }
            if (val & !PART_U64) == 0 {
                buf.push(val as u8);
                proof {
                    assert(base128_encoding(val as nat) == seq![val as u8]);
                }
                return buf;
            }
            let ghost prev = buf@;
            buf.push(val as u8 | !0x7F);
            proof {
                let v = val as nat;
                assert(base128_encoding(v) == seq![((v % 128) + 128) as u8] + base128_encoding(
                    v / 128,
                ));
                assert(buf@ + base128_encoding(v / 128) =~= prev + base128_encoding(v));
            }
            val >>= 7;
        }
    }

    /// Decodes the `VarLong` at the start of `buf`.
    pub fn from_bytes(buf: &[u8]) -> (res: VarLong)
        requires
            varlong_at_start(buf@) is Some,
        ensures
            Some(res.0) == varlong_at_start(buf@),
    {
        let ghost s = buf@;
        proof {
            lemma_encoded_len(s);
        }
        let ghost n: nat = encoded_len(s).unwrap();
        let mut size: u64 = 0;
        let mut val: u64 = 0;

        let mut index: usize = 0;
        let mut byte = buf[index];

        loop
            invariant_except_break
                size as int == index as int,
                index < n,
                byte == s[index as int],
                (val as nat) == base128_value(s.take(index as int)) % 0x1_0000_0000_0000_0000,
                base128_value(s.take(index as int)) < radix_power(index as nat),
            invariant
                s == buf@,
                encoded_len(s) == Some(n),
                1 <= n <= 10,
                n <= s.len(),
                s[n - 1] < 128,
                forall|i: int| 0 <= i < n - 1 ==> s[i] >= 128,
            ensures
                (val as nat) == base128_value(s.take(n as int)) % 0x1_0000_0000_0000_0000,
            decreases n - index,
        {
            proof {
                lemma_radix_power_values();
                lemma_u64_add_septet(val, byte, size);
                lemma_continuation_bit(byte);
                lemma_value_take_step(s, index as int);
                lemma_value_bound(s.take(index + 1));
            }
            val |= (byte as u64 & PART_U64) << (size * 7);
            size += 1;
            if (byte & 0x80) == 0 {
                break;
            }
            index += 1;
            byte = buf[index];
        }
        VarLong(val as i64)
    }

    /// Decodes the `VarLong` that starts at `buf[start]`, returning it with the number of
    /// bytes it takes, or `(VarLong(0), 0)` when the buffer ends before the number does.
    pub fn from_vec(buf: &Vec<u8>, start: usize) -> (res: (VarLong, usize))
        requires
            start < buf.len(),
            ends_within(buf@.skip(start as int), 10) || buf.len() - start <= 10,
        ensures
            match encoded_len(buf@.skip(start as int)) {
                Some(n) => Some(res.0.0) == varlong_at_start(buf@.skip(start as int)) && res.1
                    == n,
                None => res.0.0 == 0 && res.1 == 0,
            },
    {
        let ghost s = buf@.skip(start as int);
        proof {
            lemma_encoded_len(s);
        }
        let mut size: u64 = 0;
        let mut val: u64 = 0;

        let mut index = 0usize;
        let mut byte = buf[index + start];

        loop
            invariant_except_break
                size as int == index as int,
                index < 10,
                index < s.len(),
                byte == s[index as int],
                forall|i: int| 0 <= i < index ==> s[i] >= 128,
                (val as nat) == base128_value(s.take(index as int)) % 0x1_0000_0000_0000_0000,
                base128_value(s.take(index as int)) < radix_power(index as nat),
            invariant
                s == buf@.skip(start as int),
                start < buf.len(),
                ends_within(s, 10) || s.len() <= 10,
                encoded_len(s) matches Some(n) ==> {
                    &&& 1 <= n <= s.len()
                    &&& s[n - 1] < 128
                    &&& forall|i: int| 0 <= i < n - 1 ==> s[i] >= 128
                },
                encoded_len(s) is None ==> forall|i: int| 0 <= i < s.len() ==> s[i] >= 128,
            ensures
                encoded_len(s) == Some((index + 1) as nat),
                (val as nat) == base128_value(s.take(index + 1)) % 0x1_0000_0000_0000_0000,
            decreases s.len() - index,
        {
            proof {
                lemma_radix_power_values();
                lemma_u64_add_septet(val, byte, size);
                lemma_continuation_bit(byte);
                lemma_value_take_step(s, index as int);
                lemma_value_bound(s.take(index + 1));
            }
            val |= (byte as u64 & PART_U64) << (size * 7);
            size += 1;
            if size > 10 {
                return (VarLong(0), 0);
            }
            if (byte & 0x80) == 0 {
                proof {
                    lemma_encoded_len_at(s, (index + 1) as nat);
                }
                break;
            }
            index += 1;
            if index + start < buf.len() {
                proof {
                    if index >= 10 {
                        assert(s[(encoded_len(s).unwrap() - 1) as int] < 128);
                    }
                }
                byte = buf[index + start];
            } else {
                return (VarLong(0), 0);
            }
        }
        (VarLong(val as i64), index + 1)
    }
}

} // verus!
