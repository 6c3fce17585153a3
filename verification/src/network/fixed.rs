//! Fixed-width big-endian integers, as the protocol writes shorts, ints and longs.
use vstd::prelude::*;

use vstd::arithmetic::div_mod::lemma_mod_breakdown;

verus! {

/// `256` raised to the power `n`.
pub open spec fn byte_power(n: nat) -> nat
    decreases n,
{
    if n == 0 {
        1
    } else {
        256 * byte_power((n - 1) as nat)
    }
}

/// The `n` low-order bytes of `v`, most significant first.
pub open spec fn be_bytes(v: nat, n: nat) -> Seq<u8>
    decreases n,
{
    if n == 0 {
        Seq::empty()
    } else {
        be_bytes(v / 256, (n - 1) as nat).push((v % 256) as u8)
    }
}

/// The number whose bytes, most significant first, are `s`.
pub open spec fn be_value(s: Seq<u8>) -> nat
    decreases s.len(),
{
    if s.len() == 0 {
        0
    } else {
        256 * be_value(s.drop_last()) + (s.last() as nat)
    }
}

pub proof fn lemma_byte_power_values()
    ensures
        byte_power(1) == 0x100,
        byte_power(2) == 0x1_0000,
        byte_power(4) == 0x1_0000_0000,
        byte_power(8) == 0x1_0000_0000_0000_0000,
{
    assert(byte_power(0) == 1);
    assert(byte_power(1) == 0x100);
    assert(byte_power(2) == 0x1_0000);
    assert(byte_power(3) == 0x100_0000);
    assert(byte_power(4) == 0x1_0000_0000);
    assert(byte_power(5) == 0x100_0000_0000);
    assert(byte_power(6) == 0x1_0000_0000_0000);
    assert(byte_power(7) == 0x100_0000_0000_0000);
    assert(byte_power(8) == 0x1_0000_0000_0000_0000);
}

/// `n` bytes read back as the number they were taken from, modulo `256^n`.
pub proof fn lemma_be_round_trip(v: nat, n: nat)
    ensures
        be_bytes(v, n).len() == n,
        be_value(be_bytes(v, n)) == v % byte_power(n),
    decreases n,
{
    if n > 0 {
        let n1 = (n - 1) as nat;
        lemma_be_round_trip(v / 256, n1);
        let s = be_bytes(v, n);
        assert(s.drop_last() =~= be_bytes(v / 256, n1));
        assert(byte_power(n1) > 0) by {
            lemma_byte_power_positive(n1);
        }
        lemma_mod_breakdown(v as int, 256, byte_power(n1) as int);
    }
}

pub proof fn lemma_byte_power_positive(n: nat)
    ensures
        byte_power(n) > 0,
    decreases n,
{
    if n > 0 {
        lemma_byte_power_positive((n - 1) as nat);
    }
}

/// A sequence of bytes is the encoding of the number it reads as.
pub proof fn lemma_be_bytes_of_value(s: Seq<u8>)
    ensures
        be_bytes(be_value(s), s.len()) == s,
    decreases s.len(),
{
    if s.len() > 0 {
        let t = s.drop_last();
        lemma_be_bytes_of_value(t);
        let v = be_value(s);
        assert(v / 256 == be_value(t));
        assert(v % 256 == s.last());
        assert(be_bytes(v, s.len()) =~= t.push(s.last()));
        assert(t.push(s.last()) =~= s);
    }
}

proof fn lemma_be_value_2(s: Seq<u8>)
    requires
        s.len() == 2,
    ensures
        be_value(s) == s[0] * 0x100 + s[1],
{
    let s1 = s.drop_last();
    assert(s1.drop_last() =~= Seq::<u8>::empty());
    assert(be_value(s1.drop_last()) == 0);
    assert(s1.last() == s[0]);
    assert(be_value(s1) == s[0]);
}

proof fn lemma_be_value_4(s: Seq<u8>)
    requires
        s.len() == 4,
    ensures
        be_value(s) == s[0] * 0x100_0000 + s[1] * 0x1_0000 + s[2] * 0x100 + s[3],
{
    let s3 = s.drop_last();
    let s2 = s3.drop_last();
    let s1 = s2.drop_last();
    assert(s1.drop_last() =~= Seq::<u8>::empty());
    assert(be_value(s1.drop_last()) == 0);
    assert(s1.last() == s[0]);
    assert(be_value(s1) == s[0]);
    assert(be_value(s2) == 256 * s[0] + s[1]);
    assert(be_value(s3) == 256 * (256 * s[0] + s[1]) + s[2]);
}

proof fn lemma_be_value_8(s: Seq<u8>)
    requires
        s.len() == 8,
    ensures
        be_value(s) == s[0] * 0x100_0000_0000_0000 + s[1] * 0x1_0000_0000_0000 + s[2]
            * 0x100_0000_0000 + s[3] * 0x1_0000_0000 + s[4] * 0x100_0000 + s[5] * 0x1_0000 + s[6]
            * 0x100 + s[7],
{
    let s7 = s.drop_last();
    let s6 = s7.drop_last();
    let s5 = s6.drop_last();
    let s4 = s5.drop_last();
    let s3 = s4.drop_last();
    let s2 = s3.drop_last();
    let s1 = s2.drop_last();
    assert(s1.drop_last() =~= Seq::<u8>::empty());
    assert(be_value(s1.drop_last()) == 0);
    assert(s1.last() == s[0]);
    assert(be_value(s1) == s[0]);
    assert(be_value(s2) == 256 * s[0] + s[1]);
    assert(be_value(s3) == 256 * be_value(s2) + s[2]);
    assert(be_value(s4) == 256 * be_value(s3) + s[3]);
    assert(be_value(s5) == 256 * be_value(s4) + s[4]);
    assert(be_value(s6) == 256 * be_value(s5) + s[5]);
    assert(be_value(s7) == 256 * be_value(s6) + s[6]);
}

/// The two bytes of `v`, most significant first.
pub fn u16_to_be(v: u16) -> (out: Vec<u8>)
    ensures
        out@ == be_bytes(v as nat, 2),
{
    let out = vec![(v >> 8) as u8, v as u8];
    proof {
        lemma_be_value_2(out@);
        assert(v == ((v >> 8) as u8) as u16 * 0x100 + (v as u8) as u16) by (bit_vector);
        lemma_be_bytes_of_value(out@);
    }
    out
}

/// The number whose two bytes, most significant first, are `b`.
pub fn u16_from_be(b: &[u8; 2]) -> (v: u16)
    ensures
        v as nat == be_value(b@),
{
    let (b0, b1) = (b[0], b[1]);
    proof {
        lemma_be_value_2(b@);
        assert(((b0 as u16) << 8u16 | b1 as u16) as int == b0 * 0x100 + b1) by (bit_vector);
    }
    (b0 as u16) << 8 | b1 as u16
}

/// The four bytes of `v`, most significant first.
pub fn u32_to_be(v: u32) -> (out: Vec<u8>)
    ensures
        out@ == be_bytes(v as nat, 4),
{
    let out = vec![(v >> 24) as u8, (v >> 16) as u8, (v >> 8) as u8, v as u8];
    proof {
        lemma_be_value_4(out@);
        assert(v == ((v >> 24) as u8) as u32 * 0x100_0000 + ((v >> 16) as u8) as u32 * 0x1_0000
            + ((v >> 8) as u8) as u32 * 0x100 + (v as u8) as u32) by (bit_vector);
        lemma_be_bytes_of_value(out@);
    }
    out
}

/// The number whose four bytes, most significant first, are `b`.
pub fn u32_from_be(b: &[u8; 4]) -> (v: u32)
    ensures
        v as nat == be_value(b@),
{
    let (b0, b1, b2, b3) = (b[0], b[1], b[2], b[3]);
    proof {
        lemma_be_value_4(b@);
        assert(((b0 as u32) << 24u32 | (b1 as u32) << 16u32 | (b2 as u32) << 8u32 | b3 as u32)
            as int == b0 * 0x100_0000 + b1 * 0x1_0000 + b2 * 0x100 + b3) by (bit_vector);
    }
    (b0 as u32) << 24 | (b1 as u32) << 16 | (b2 as u32) << 8 | b3 as u32
}

/// The eight bytes of `v`, most significant first.
pub fn u64_to_be(v: u64) -> (out: Vec<u8>)
    ensures
        out@ == be_bytes(v as nat, 8),
{
    let out = vec![
        (v >> 56) as u8,
        (v >> 48) as u8,
        (v >> 40) as u8,
        (v >> 32) as u8,
        (v >> 24) as u8,
        (v >> 16) as u8,
        (v >> 8) as u8,
        v as u8,
    ];
    proof {
        lemma_be_value_8(out@);
        assert(v == ((v >> 56) as u8) as u64 * 0x100_0000_0000_0000 + ((v >> 48) as u8) as u64
            * 0x1_0000_0000_0000 + ((v >> 40) as u8) as u64 * 0x100_0000_0000 + ((v >> 32) as u8)
            as u64 * 0x1_0000_0000 + ((v >> 24) as u8) as u64 * 0x100_0000 + ((v >> 16) as u8)
            as u64 * 0x1_0000 + ((v >> 8) as u8) as u64 * 0x100 + (v as u8) as u64)
            by (bit_vector);
        lemma_be_bytes_of_value(out@);
    }
    out
}

/// The number whose eight bytes, most significant first, are `b`.
pub fn u64_from_be(b: &[u8; 8]) -> (v: u64)
    ensures
        v as nat == be_value(b@),
{
    let (b0, b1, b2, b3) = (b[0], b[1], b[2], b[3]);
    let (b4, b5, b6, b7) = (b[4], b[5], b[6], b[7]);
    proof {
        lemma_be_value_8(b@);
        assert(((b0 as u64) << 56u64 | (b1 as u64) << 48u64 | (b2 as u64) << 40u64 | (b3 as u64)
            << 32u64 | (b4 as u64) << 24u64 | (b5 as u64) << 16u64 | (b6 as u64) << 8u64
            | b7 as u64) as int == b0 * 0x100_0000_0000_0000 + b1 * 0x1_0000_0000_0000 + b2
            * 0x100_0000_0000 + b3 * 0x1_0000_0000 + b4 * 0x100_0000 + b5 * 0x1_0000 + b6 * 0x100
            + b7) by (bit_vector);
    }
    (b0 as u64) << 56 | (b1 as u64) << 48 | (b2 as u64) << 40 | (b3 as u64) << 32 | (b4 as u64)
        << 24 | (b5 as u64) << 16 | (b6 as u64) << 8 | b7 as u64
}

} // verus!
