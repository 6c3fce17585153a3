//! Decoding clientbound packets. Each packet the library understands has a layout: the
//! kinds of its fields in order. A packet's bytes decode to the values read field by
//! field from just after its ID, and a decoded packet is described by the same values.
use vstd::prelude::*;

use crate::network::base128::{encoded_len, ends_within, lemma_encoded_len, lemma_encoded_len_at};
use crate::network::fixed::be_value;
use crate::network::messages::{
    BlockChange, ChatIncoming, ChunkData, DecodedPacket, DestroyEntities, Disconnect,
    EntityHeadLook, EntityMetadata, EntityPosition, EntityPositionAndRotation, EntityRotation,
    EntityTeleport, EntityVelocity, JoinGame, KeepAliveClientbound, PlayerPositionAndLook,
    ServerDifficulty, SoundEffect, SpawnEntity, SpawnLivingEntity, Status, TimeUpdate,
    UpdateHealth,
};
use crate::network::nbt::{nbt_long_arrays, nbt_read, nbt_root_end, nbt_scan, read_compound_at, NBTTag};
use crate::network::packets::{
    read_be, read_bool, read_position, read_string, read_u8, read_varint, varint_readable,
    PacketDecoder,
};
use crate::network::types::{
    mcstring_payload, string_from_utf8, Angle, Boolean, Byte, DoubleBits, FloatBits, Int, Long, MCString, Position, Short, UByte,
    VarInt, UUID,
};
use crate::state::ServerState;

verus! {

/// The kind of a single field.
#[derive(Debug, Clone, Copy, PartialEq, Eq, Structural)]
pub enum Scalar {
    Bool,
    Byte,
    /// An unsigned byte; angles are sent as one.
    UByte,
    Short,
    Int,
    Long,
    /// The four bytes of a single-precision float.
    Float,
    /// The eight bytes of a double-precision float.
    Double,
    VarInt,
    Str,
    Position,
    Uuid,
    Nbt,
}

/// The kind of an entry of a packet's layout: a single field, or a `VarInt` count followed
/// by that many fields of one kind.
#[derive(Debug, Clone, Copy, PartialEq, Eq, Structural)]
pub enum FieldKind {
    One(Scalar),
    Counted(Scalar),
}

/// The value of a field as the packet's bytes give it. Numbers are kept as integers, and
/// floats as the integer of their bits. An NBT compound's contents are not described.
pub enum FieldValue {
    Flag(bool),
    Num(int),
    Text(Seq<char>),
    Coords(int, int, int),
    Ident(int, int),
    /// An NBT compound, by its long array tags.
    Compound(Map<Seq<char>, Seq<i64>>),
    /// A count and the values that followed it.
    Counted(int, Seq<FieldValue>),
}

/// The value of a single field of kind `kind` at `pos`, and the position after it.
pub open spec fn read_scalar(buf: Seq<u8>, pos: nat, kind: Scalar) -> Option<(FieldValue, nat)> {
    match kind {
        Scalar::Bool => match read_bool(buf, pos) {
            Some((b, p)) => Some((FieldValue::Flag(b), p)),
            None => None,
        },
        Scalar::Byte => match read_u8(buf, pos) {
            Some((b, p)) => Some((FieldValue::Num((b as i8) as int), p)),
            None => None,
        },
        Scalar::UByte => match read_u8(buf, pos) {
            Some((b, p)) => Some((FieldValue::Num(b as int), p)),
            None => None,
        },
        Scalar::Short => match read_be(buf, pos, 2) {
            Some((n, p)) => Some((FieldValue::Num(((n as u16) as i16) as int), p)),
            None => None,
        },
        Scalar::Int => match read_be(buf, pos, 4) {
            Some((n, p)) => Some((FieldValue::Num(((n as u32) as i32) as int), p)),
            None => None,
        },
        Scalar::Long => match read_be(buf, pos, 8) {
            Some((n, p)) => Some((FieldValue::Num(((n as u64) as i64) as int), p)),
            None => None,
        },
        Scalar::Float => match read_be(buf, pos, 4) {
            Some((n, p)) => Some((FieldValue::Num(n as int), p)),
            None => None,
        },
        Scalar::Double => match read_be(buf, pos, 8) {
            Some((n, p)) => Some((FieldValue::Num(n as int), p)),
            None => None,
        },
        Scalar::VarInt => match read_varint(buf, pos) {
            Some((v, p)) => Some((FieldValue::Num(v as int), p)),
            None => None,
        },
        Scalar::Str => match read_string(buf, pos) {
            Some((s, p)) => Some((FieldValue::Text(s), p)),
            None => None,
        },
        Scalar::Position => match read_position(buf, pos) {
            Some(((x, y, z), p)) => Some((FieldValue::Coords(x, y, z), p)),
            None => None,
        },
        Scalar::Uuid => match read_be(buf, pos, 8) {
            Some((hi, p)) => match read_be(buf, p, 8) {
                Some((lo, q)) => Some((FieldValue::Ident(hi as int, lo as int), q)),
                None => None,
            },
            None => None,
        },
        Scalar::Nbt => if nbt_root_end(buf, pos as int) is Some {
            match nbt_read(buf.skip(pos as int)) {
                Some((n, arrays)) => Some((FieldValue::Compound(arrays), pos + n)),
                None => None,
            }
        } else {
            None
        },
    }
}

/// The values of `n` fields of kind `kind` one after the other from `pos`, and the
/// position after the last.
pub open spec fn read_repeated(buf: Seq<u8>, pos: nat, kind: Scalar, n: nat) -> Option<
    (Seq<FieldValue>, nat),
>
    decreases n,
{
    if n == 0 {
        Some((Seq::empty(), pos))
    } else {
        match read_repeated(buf, pos, kind, (n - 1) as nat) {
            Some((vs, p)) => match read_scalar(buf, p, kind) {
                Some((v, q)) => Some((vs.push(v), q)),
                None => None,
            },
            None => None,
        }
    }
}

/// The value of a layout entry at `pos`, and the position after it. A count must not be
/// negative.
pub open spec fn read_field(buf: Seq<u8>, pos: nat, kind: FieldKind) -> Option<(FieldValue, nat)> {
    match kind {
        FieldKind::One(s) => read_scalar(buf, pos, s),
        FieldKind::Counted(s) => match read_varint(buf, pos) {
            Some((n, p)) => if n >= 0 {
                match read_repeated(buf, p, s, n as nat) {
                    Some((vs, q)) => Some((FieldValue::Counted(n as int, vs), q)),
                    None => None,
                }
            } else {
                None
            },
            None => None,
        },
    }
}

/// The values of the first `n` entries of `layout` read from `start`, and the position
/// after them.
#[verifier::opaque]
pub open spec fn read_prefix(buf: Seq<u8>, start: nat, layout: Seq<FieldKind>, n: nat) -> Option<
    (Seq<FieldValue>, nat),
>
    decreases n,
{
    if n == 0 {
        Some((Seq::empty(), start))
    } else {
        match read_prefix(buf, start, layout, (n - 1) as nat) {
            Some((vs, p)) => match read_field(buf, p, layout[n - 1]) {
                Some((v, q)) => Some((vs.push(v), q)),
                None => None,
            },
            None => None,
        }
    }
}

/// The values of all the fields of `layout`, read from just after the packet's ID.
pub open spec fn read_layout(buf: Seq<u8>, layout: Seq<FieldKind>) -> Option<Seq<FieldValue>> {
    match read_prefix(buf, 1, layout, layout.len()) {
        Some((vs, _)) => Some(vs),
        None => None,
    }
}

/// Nothing is read by an empty prefix.
proof fn lemma_prefix_start(buf: Seq<u8>, start: nat, layout: Seq<FieldKind>)
    ensures
        read_prefix(buf, start, layout, 0) == Some((Seq::<FieldValue>::empty(), start)),
{
    reveal(read_prefix);
}

/// A prefix of a layout that can be read is read by every shorter prefix too.
proof fn lemma_prefix_shorter(buf: Seq<u8>, start: nat, layout: Seq<FieldKind>, k: nat, n: nat)
    requires
        k <= n,
        read_prefix(buf, start, layout, n) is Some,
    ensures
        read_prefix(buf, start, layout, k) is Some,
    decreases n - k,
{
    reveal(read_prefix);
    if k < n {
        lemma_prefix_shorter(buf, start, layout, k + 1, n);
    }
}

/// The same for repeated fields.
pub(crate) proof fn lemma_repeated_shorter(buf: Seq<u8>, pos: nat, kind: Scalar, k: nat, n: nat)
    requires
        k <= n,
        read_repeated(buf, pos, kind, n) is Some,
    ensures
        read_repeated(buf, pos, kind, k) is Some,
    decreases n - k,
{
    if k < n {
        lemma_repeated_shorter(buf, pos, kind, k + 1, n);
    }
}

/// Where the decoder stands while reading a layout: `k` entries have been read from
/// `start`, the whole layout can be read, and the decoder is at the end of the entries
/// read so far.
pub open spec fn at_entry(pd: PacketDecoder, start: nat, layout: Seq<FieldKind>, k: nat) -> bool {
    &&& k < layout.len()
    &&& read_prefix(pd.buffer(), start, layout, layout.len()) is Some
    &&& read_prefix(pd.buffer(), start, layout, k) matches Some((_, p)) && p == pd.index()
}

/// The values read so far when `k` entries have been read.
pub open spec fn values_so_far(buf: Seq<u8>, start: nat, layout: Seq<FieldKind>, k: nat) -> Seq<
    FieldValue,
> {
    read_prefix(buf, start, layout, k).unwrap().0
}

/// After an entry was read with the value `v`, the decoder stands after it.
pub open spec fn read_entry(
    old_pd: PacketDecoder,
    new_pd: PacketDecoder,
    start: nat,
    layout: Seq<FieldKind>,
    k: nat,
    v: FieldValue,
) -> bool {
    &&& new_pd.buffer() == old_pd.buffer()
    &&& read_prefix(old_pd.buffer(), start, layout, k + 1) == Some(
        (values_so_far(old_pd.buffer(), start, layout, k).push(v), new_pd.index()),
    )
}

/// The single field at entry `k` can be read where the decoder stands.
proof fn lemma_entry_readable(pd: PacketDecoder, start: nat, layout: Seq<FieldKind>, k: nat)
    requires
        at_entry(pd, start, layout, k),
    ensures
        read_field(pd.buffer(), pd.index(), layout[k as int]) is Some,
{
    reveal(read_prefix);
    lemma_prefix_shorter(pd.buffer(), start, layout, k + 1, layout.len());
}

/// Reads layout entry `k`, a single `Bool` field.
fn take_bool(
    pd: &mut PacketDecoder,
    Ghost(start): Ghost<nat>,
    Ghost(layout): Ghost<Seq<FieldKind>>,
    Ghost(k): Ghost<nat>,
) -> (v: Boolean)
    requires
        at_entry(*old(pd), start, layout, k),
        layout[k as int] == FieldKind::One(Scalar::Bool),
    ensures
        read_entry(*old(pd), *final(pd), start, layout, k, FieldValue::Flag(v.0)),
{
    proof {
        lemma_entry_readable(*pd, start, layout, k);
        reveal(read_prefix);
    }
    let v = pd.next_bool();
    v
}

/// Reads layout entry `k`, a single `Byte` field.
fn take_byte(
    pd: &mut PacketDecoder,
    Ghost(start): Ghost<nat>,
    Ghost(layout): Ghost<Seq<FieldKind>>,
    Ghost(k): Ghost<nat>,
) -> (v: Byte)
    requires
        at_entry(*old(pd), start, layout, k),
        layout[k as int] == FieldKind::One(Scalar::Byte),
    ensures
        read_entry(*old(pd), *final(pd), start, layout, k, FieldValue::Num(v.0 as int)),
{
    proof {
        lemma_entry_readable(*pd, start, layout, k);
        reveal(read_prefix);
    }
    let v = pd.next_byte();
    proof {
        let b = v.0;
        assert((b as u8) as i8 == b) by (bit_vector);
    }
    v
}

/// Reads layout entry `k`, a single `UByte` field.
fn take_ubyte(
    pd: &mut PacketDecoder,
    Ghost(start): Ghost<nat>,
    Ghost(layout): Ghost<Seq<FieldKind>>,
    Ghost(k): Ghost<nat>,
) -> (v: UByte)
    requires
        at_entry(*old(pd), start, layout, k),
        layout[k as int] == FieldKind::One(Scalar::UByte),
    ensures
        read_entry(*old(pd), *final(pd), start, layout, k, FieldValue::Num(v.0 as int)),
{
    proof {
        lemma_entry_readable(*pd, start, layout, k);
        reveal(read_prefix);
    }
    let v = pd.next_ubyte();
    v
}

/// Reads layout entry `k`, a single `Short` field.
fn take_short(
    pd: &mut PacketDecoder,
    Ghost(start): Ghost<nat>,
    Ghost(layout): Ghost<Seq<FieldKind>>,
    Ghost(k): Ghost<nat>,
) -> (v: Short)
    requires
        at_entry(*old(pd), start, layout, k),
        layout[k as int] == FieldKind::One(Scalar::Short),
    ensures
        read_entry(*old(pd), *final(pd), start, layout, k, FieldValue::Num(v.0 as int)),
{
    proof {
        lemma_entry_readable(*pd, start, layout, k);
        reveal(read_prefix);
    }
    let v = pd.next_short();
    v
}

/// Reads layout entry `k`, a single `Int` field.
fn take_int(
    pd: &mut PacketDecoder,
    Ghost(start): Ghost<nat>,
    Ghost(layout): Ghost<Seq<FieldKind>>,
    Ghost(k): Ghost<nat>,
) -> (v: Int)
    requires
        at_entry(*old(pd), start, layout, k),
        layout[k as int] == FieldKind::One(Scalar::Int),
    ensures
        read_entry(*old(pd), *final(pd), start, layout, k, FieldValue::Num(v.0 as int)),
{
    proof {
        lemma_entry_readable(*pd, start, layout, k);
        reveal(read_prefix);
    }
    let v = pd.next_int();
    v
}

/// Reads layout entry `k`, a single `Long` field.
fn take_long(
    pd: &mut PacketDecoder,
    Ghost(start): Ghost<nat>,
    Ghost(layout): Ghost<Seq<FieldKind>>,
    Ghost(k): Ghost<nat>,
) -> (v: Long)
    requires
        at_entry(*old(pd), start, layout, k),
        layout[k as int] == FieldKind::One(Scalar::Long),
    ensures
        read_entry(*old(pd), *final(pd), start, layout, k, FieldValue::Num(v.0 as int)),
{
    proof {
        lemma_entry_readable(*pd, start, layout, k);
        reveal(read_prefix);
    }
    let v = pd.next_long();
    v
}

/// Reads layout entry `k`, a single `Float` field.
fn take_float(
    pd: &mut PacketDecoder,
    Ghost(start): Ghost<nat>,
    Ghost(layout): Ghost<Seq<FieldKind>>,
    Ghost(k): Ghost<nat>,
) -> (v: FloatBits)
    requires
        at_entry(*old(pd), start, layout, k),
        layout[k as int] == FieldKind::One(Scalar::Float),
    ensures
        read_entry(*old(pd), *final(pd), start, layout, k, FieldValue::Num(v.0 as int)),
{
    proof {
        lemma_entry_readable(*pd, start, layout, k);
        reveal(read_prefix);
    }
    let v = pd.next_float();
    v
}

/// Reads layout entry `k`, a single `Double` field.
fn take_double(
    pd: &mut PacketDecoder,
    Ghost(start): Ghost<nat>,
    Ghost(layout): Ghost<Seq<FieldKind>>,
    Ghost(k): Ghost<nat>,
) -> (v: DoubleBits)
    requires
        at_entry(*old(pd), start, layout, k),
        layout[k as int] == FieldKind::One(Scalar::Double),
    ensures
        read_entry(*old(pd), *final(pd), start, layout, k, FieldValue::Num(v.0 as int)),
{
    proof {
        lemma_entry_readable(*pd, start, layout, k);
        reveal(read_prefix);
    }
    let v = pd.next_double();
    v
}

/// Reads layout entry `k`, a single `VarInt` field.
fn take_varint(
    pd: &mut PacketDecoder,
    Ghost(start): Ghost<nat>,
    Ghost(layout): Ghost<Seq<FieldKind>>,
    Ghost(k): Ghost<nat>,
) -> (v: VarInt)
    requires
        at_entry(*old(pd), start, layout, k),
        layout[k as int] == FieldKind::One(Scalar::VarInt),
    ensures
        read_entry(*old(pd), *final(pd), start, layout, k, FieldValue::Num(v.0 as int)),
{
    proof {
        lemma_entry_readable(*pd, start, layout, k);
        reveal(read_prefix);
    }
    let v = pd.next_varint();
    v
}

/// Reads layout entry `k`, a single `Str` field.
fn take_string(
    pd: &mut PacketDecoder,
    Ghost(start): Ghost<nat>,
    Ghost(layout): Ghost<Seq<FieldKind>>,
    Ghost(k): Ghost<nat>,
) -> (v: MCString)
    requires
        at_entry(*old(pd), start, layout, k),
        layout[k as int] == FieldKind::One(Scalar::Str),
    ensures
        read_entry(*old(pd), *final(pd), start, layout, k, FieldValue::Text(v.0@)),
{
    proof {
        lemma_entry_readable(*pd, start, layout, k);
        reveal(read_prefix);
    }
    let v = pd.next_string();
    v
}

/// Reads layout entry `k`, a single `Position` field.
fn take_position(
    pd: &mut PacketDecoder,
    Ghost(start): Ghost<nat>,
    Ghost(layout): Ghost<Seq<FieldKind>>,
    Ghost(k): Ghost<nat>,
) -> (v: Position)
    requires
        at_entry(*old(pd), start, layout, k),
        layout[k as int] == FieldKind::One(Scalar::Position),
    ensures
        read_entry(*old(pd), *final(pd), start, layout, k, FieldValue::Coords(v.0 as int, v.1 as int, v.2 as int)),
{
    proof {
        lemma_entry_readable(*pd, start, layout, k);
        reveal(read_prefix);
    }
    let v = pd.next_position();
    v
}

/// Reads layout entry `k`, a single `Uuid` field.
fn take_uuid(
    pd: &mut PacketDecoder,
    Ghost(start): Ghost<nat>,
    Ghost(layout): Ghost<Seq<FieldKind>>,
    Ghost(k): Ghost<nat>,
) -> (v: UUID)
    requires
        at_entry(*old(pd), start, layout, k),
        layout[k as int] == FieldKind::One(Scalar::Uuid),
    ensures
        read_entry(*old(pd), *final(pd), start, layout, k, FieldValue::Ident(v.0[0] as int, v.0[1] as int)),
{
    proof {
        lemma_entry_readable(*pd, start, layout, k);
        reveal(read_prefix);
    }
    let v = pd.next_uuid();
    v
}

/// Reads layout entry `k`, a single `Nbt` field.
fn take_nbt(
    pd: &mut PacketDecoder,
    Ghost(start): Ghost<nat>,
    Ghost(layout): Ghost<Seq<FieldKind>>,
    Ghost(k): Ghost<nat>,
) -> (v: NBTTag)
    requires
        at_entry(*old(pd), start, layout, k),
        layout[k as int] == FieldKind::One(Scalar::Nbt),
    ensures
        read_entry(*old(pd), *final(pd), start, layout, k, FieldValue::Compound(nbt_long_arrays(v.0))),
{
    proof {
        lemma_entry_readable(*pd, start, layout, k);
        reveal(read_prefix);
    }
    let v = pd.next_nbt();
    v
}

/// The values of a list of `Long` fields.
pub open spec fn long_values(s: Seq<Long>) -> Seq<FieldValue> {
    s.map_values(|x: Long| FieldValue::Num(x.0 as int))
}

/// The values of a list of `VarInt` fields.
pub open spec fn varint_values(s: Seq<VarInt>) -> Seq<FieldValue> {
    s.map_values(|x: VarInt| FieldValue::Num(x.0 as int))
}

/// The values of a list of `Byte` fields.
pub open spec fn byte_values(s: Seq<Byte>) -> Seq<FieldValue> {
    s.map_values(|x: Byte| FieldValue::Num(x.0 as int))
}

/// The values of a list of `MCString` fields.
pub open spec fn string_values(s: Seq<MCString>) -> Seq<FieldValue> {
    s.map_values(|x: MCString| FieldValue::Text(x.0@))
}

/// The values of a list of `NBTTag` fields.
pub open spec fn nbt_values(s: Seq<NBTTag>) -> Seq<FieldValue> {
    s.map_values(|x: NBTTag| FieldValue::Compound(nbt_long_arrays(x.0)))
}

/// Reads layout entry `k`: a `VarInt` count, then that many `Long` fields.
fn take_longs(
    pd: &mut PacketDecoder,
    Ghost(start): Ghost<nat>,
    Ghost(layout): Ghost<Seq<FieldKind>>,
    Ghost(k): Ghost<nat>,
) -> (res: (VarInt, Vec<Long>))
    requires
        at_entry(*old(pd), start, layout, k),
        layout[k as int] == FieldKind::Counted(Scalar::Long),
    ensures
        read_entry(
            *old(pd),
            *final(pd),
            start,
            layout,
            k,
            FieldValue::Counted(res.0.0 as int, long_values(res.1@)),
        ),
{
    proof {
        lemma_entry_readable(*pd, start, layout, k);
        reveal(read_prefix);
    }
    let ghost buf = pd.buffer();
    let count = pd.next_varint();
    let ghost p0 = pd.index();
    let n = count.0 as usize;
    let mut items: Vec<Long> = Vec::new();
    for i in 0..n
        invariant
            pd.buffer() == buf,
            n == count.0,
            read_repeated(buf, p0, Scalar::Long, n as nat) is Some,
            read_repeated(buf, p0, Scalar::Long, i as nat) == Some((long_values(items@), pd.index())),
    {
        proof {
            lemma_repeated_shorter(buf, p0, Scalar::Long, (i + 1) as nat, n as nat);
        }
        let x = pd.next_long();
        let ghost before = items@;
        items.push(x);
        proof {
            assert(long_values(items@) =~= long_values(before).push(FieldValue::Num(x.0 as int)));
        }
    }
    (count, items)
}

/// Reads layout entry `k`: a `VarInt` count, then that many `VarInt` fields.
fn take_varints(
    pd: &mut PacketDecoder,
    Ghost(start): Ghost<nat>,
    Ghost(layout): Ghost<Seq<FieldKind>>,
    Ghost(k): Ghost<nat>,
) -> (res: (VarInt, Vec<VarInt>))
    requires
        at_entry(*old(pd), start, layout, k),
        layout[k as int] == FieldKind::Counted(Scalar::VarInt),
    ensures
        read_entry(
            *old(pd),
            *final(pd),
            start,
            layout,
            k,
            FieldValue::Counted(res.0.0 as int, varint_values(res.1@)),
        ),
{
    proof {
        lemma_entry_readable(*pd, start, layout, k);
        reveal(read_prefix);
    }
    let ghost buf = pd.buffer();
    let count = pd.next_varint();
    let ghost p0 = pd.index();
    let n = count.0 as usize;
    let mut items: Vec<VarInt> = Vec::new();
    for i in 0..n
        invariant
            pd.buffer() == buf,
            n == count.0,
            read_repeated(buf, p0, Scalar::VarInt, n as nat) is Some,
            read_repeated(buf, p0, Scalar::VarInt, i as nat) == Some((varint_values(items@), pd.index())),
    {
        proof {
            lemma_repeated_shorter(buf, p0, Scalar::VarInt, (i + 1) as nat, n as nat);
        }
        let x = pd.next_varint();
        let ghost before = items@;
        items.push(x);
        proof {
            assert(varint_values(items@) =~= varint_values(before).push(FieldValue::Num(x.0 as int)));
        }
    }
    (count, items)
}

/// Reads layout entry `k`: a `VarInt` count, then that many `Byte` fields.
fn take_bytes(
    pd: &mut PacketDecoder,
    Ghost(start): Ghost<nat>,
    Ghost(layout): Ghost<Seq<FieldKind>>,
    Ghost(k): Ghost<nat>,
) -> (res: (VarInt, Vec<Byte>))
    requires
        at_entry(*old(pd), start, layout, k),
        layout[k as int] == FieldKind::Counted(Scalar::Byte),
    ensures
        read_entry(
            *old(pd),
            *final(pd),
            start,
            layout,
            k,
            FieldValue::Counted(res.0.0 as int, byte_values(res.1@)),
        ),
{
    proof {
        lemma_entry_readable(*pd, start, layout, k);
        reveal(read_prefix);
    }
    let ghost buf = pd.buffer();
    let count = pd.next_varint();
    let ghost p0 = pd.index();
    let n = count.0 as usize;
    let mut items: Vec<Byte> = Vec::new();
    for i in 0..n
        invariant
            pd.buffer() == buf,
            n == count.0,
            read_repeated(buf, p0, Scalar::Byte, n as nat) is Some,
            read_repeated(buf, p0, Scalar::Byte, i as nat) == Some((byte_values(items@), pd.index())),
    {
        proof {
            lemma_repeated_shorter(buf, p0, Scalar::Byte, (i + 1) as nat, n as nat);
        }
        let x = pd.next_byte();
        proof {
            let b = x.0;
            assert((b as u8) as i8 == b) by (bit_vector);
        }
        let ghost before = items@;
        items.push(x);
        proof {
            assert(byte_values(items@) =~= byte_values(before).push(FieldValue::Num(x.0 as int)));
        }
    }
    (count, items)
}

/// Reads layout entry `k`: a `VarInt` count, then that many `Str` fields.
fn take_strings(
    pd: &mut PacketDecoder,
    Ghost(start): Ghost<nat>,
    Ghost(layout): Ghost<Seq<FieldKind>>,
    Ghost(k): Ghost<nat>,
) -> (res: (VarInt, Vec<MCString>))
    requires
        at_entry(*old(pd), start, layout, k),
        layout[k as int] == FieldKind::Counted(Scalar::Str),
    ensures
        read_entry(
            *old(pd),
            *final(pd),
            start,
            layout,
            k,
            FieldValue::Counted(res.0.0 as int, string_values(res.1@)),
        ),
{
    proof {
        lemma_entry_readable(*pd, start, layout, k);
        reveal(read_prefix);
    }
    let ghost buf = pd.buffer();
    let count = pd.next_varint();
    let ghost p0 = pd.index();
    let n = count.0 as usize;
    let mut items: Vec<MCString> = Vec::new();
    for i in 0..n
        invariant
            pd.buffer() == buf,
            n == count.0,
            read_repeated(buf, p0, Scalar::Str, n as nat) is Some,
            read_repeated(buf, p0, Scalar::Str, i as nat) == Some((string_values(items@), pd.index())),
    {
        proof {
            lemma_repeated_shorter(buf, p0, Scalar::Str, (i + 1) as nat, n as nat);
        }
        let x = pd.next_string();
        let ghost before = items@;
        items.push(x);
        proof {
            assert(string_values(items@) =~= string_values(before).push(FieldValue::Text(x.0@)));
        }
    }
    (count, items)
}

/// Reads layout entry `k`: a `VarInt` count, then that many `Nbt` fields.
fn take_nbts(
    pd: &mut PacketDecoder,
    Ghost(start): Ghost<nat>,
    Ghost(layout): Ghost<Seq<FieldKind>>,
    Ghost(k): Ghost<nat>,
) -> (res: (VarInt, Vec<NBTTag>))
    requires
        at_entry(*old(pd), start, layout, k),
        layout[k as int] == FieldKind::Counted(Scalar::Nbt),
    ensures
        read_entry(
            *old(pd),
            *final(pd),
            start,
            layout,
            k,
            FieldValue::Counted(res.0.0 as int, nbt_values(res.1@)),
        ),
{
    proof {
        lemma_entry_readable(*pd, start, layout, k);
        reveal(read_prefix);
    }
    let ghost buf = pd.buffer();
    let count = pd.next_varint();
    let ghost p0 = pd.index();
    let n = count.0 as usize;
    let mut items: Vec<NBTTag> = Vec::new();
    for i in 0..n
        invariant
            pd.buffer() == buf,
            n == count.0,
            read_repeated(buf, p0, Scalar::Nbt, n as nat) is Some,
            read_repeated(buf, p0, Scalar::Nbt, i as nat) == Some((nbt_values(items@), pd.index())),
    {
        proof {
            lemma_repeated_shorter(buf, p0, Scalar::Nbt, (i + 1) as nat, n as nat);
        }
        let x = pd.next_nbt();
        let ghost before = items@;
        items.push(x);
        proof {
            assert(nbt_values(items@) =~= nbt_values(before).push(FieldValue::Compound(nbt_long_arrays(x.0))));
        }
    }
    (count, items)
}

/// The packets this library decodes.
#[derive(Debug, Clone, Copy, PartialEq, Eq, Structural)]
pub enum PacketKind {
    Status,
    Disconnect,
    SpawnEntity,
    LoginSuccess,
    SpawnLivingEntity,
    SetCompression,
    BlockChange,
    ServerDifficulty,
    ChatIncoming,
    KeepAliveClientbound,
    ChunkData,
    JoinGame,
    EntityPosition,
    EntityPositionAndRotation,
    EntityRotation,
    PlayerPositionAndLook,
    DestroyEntities,
    EntityHeadLook,
    EntityMetadata,
    EntityVelocity,
    UpdateHealth,
    TimeUpdate,
    SoundEffect,
    EntityTeleport,
}

/// The fields of each packet this library decodes, in the order they are sent.
pub open spec fn layout(kind: PacketKind) -> Seq<FieldKind> {
    match kind {
        PacketKind::Status => seq![FieldKind::One(Scalar::Str)],
        PacketKind::Disconnect => seq![FieldKind::One(Scalar::Str)],
        PacketKind::SpawnEntity => seq![FieldKind::One(Scalar::VarInt), FieldKind::One(Scalar::Uuid), FieldKind::One(Scalar::VarInt), FieldKind::One(Scalar::Double), FieldKind::One(Scalar::Double), FieldKind::One(Scalar::Double), FieldKind::One(Scalar::UByte), FieldKind::One(Scalar::UByte), FieldKind::One(Scalar::Int), FieldKind::One(Scalar::Short), FieldKind::One(Scalar::Short), FieldKind::One(Scalar::Short)],
        PacketKind::LoginSuccess => Seq::empty(),
        PacketKind::SpawnLivingEntity => seq![FieldKind::One(Scalar::VarInt), FieldKind::One(Scalar::Uuid), FieldKind::One(Scalar::VarInt), FieldKind::One(Scalar::Double), FieldKind::One(Scalar::Double), FieldKind::One(Scalar::Double), FieldKind::One(Scalar::UByte), FieldKind::One(Scalar::UByte), FieldKind::One(Scalar::UByte), FieldKind::One(Scalar::Short), FieldKind::One(Scalar::Short), FieldKind::One(Scalar::Short)],
        PacketKind::SetCompression => seq![FieldKind::One(Scalar::VarInt)],
        PacketKind::BlockChange => seq![FieldKind::One(Scalar::Position), FieldKind::One(Scalar::VarInt)],
        PacketKind::ServerDifficulty => seq![FieldKind::One(Scalar::UByte), FieldKind::One(Scalar::Bool)],
        PacketKind::ChatIncoming => seq![FieldKind::One(Scalar::Str), FieldKind::One(Scalar::Byte), FieldKind::One(Scalar::Uuid)],
        PacketKind::KeepAliveClientbound => seq![FieldKind::One(Scalar::Long)],
        PacketKind::ChunkData => seq![FieldKind::One(Scalar::Int), FieldKind::One(Scalar::Int), FieldKind::Counted(Scalar::Long), FieldKind::One(Scalar::Nbt), FieldKind::Counted(Scalar::VarInt), FieldKind::Counted(Scalar::Byte), FieldKind::Counted(Scalar::Nbt)],
        PacketKind::JoinGame => seq![FieldKind::One(Scalar::Int), FieldKind::One(Scalar::Bool), FieldKind::One(Scalar::UByte), FieldKind::One(Scalar::Byte), FieldKind::Counted(Scalar::Str), FieldKind::One(Scalar::Nbt), FieldKind::One(Scalar::Nbt), FieldKind::One(Scalar::Str), FieldKind::One(Scalar::Long), FieldKind::One(Scalar::VarInt), FieldKind::One(Scalar::VarInt), FieldKind::One(Scalar::Bool), FieldKind::One(Scalar::Bool), FieldKind::One(Scalar::Bool), FieldKind::One(Scalar::Bool)],
        PacketKind::EntityPosition => seq![FieldKind::One(Scalar::VarInt), FieldKind::One(Scalar::Short), FieldKind::One(Scalar::Short), FieldKind::One(Scalar::Short), FieldKind::One(Scalar::Bool)],
        PacketKind::EntityPositionAndRotation => seq![FieldKind::One(Scalar::VarInt), FieldKind::One(Scalar::Short), FieldKind::One(Scalar::Short), FieldKind::One(Scalar::Short), FieldKind::One(Scalar::UByte), FieldKind::One(Scalar::UByte), FieldKind::One(Scalar::Bool)],
        PacketKind::EntityRotation => seq![FieldKind::One(Scalar::VarInt), FieldKind::One(Scalar::UByte), FieldKind::One(Scalar::UByte), FieldKind::One(Scalar::Bool)],
        PacketKind::PlayerPositionAndLook => seq![FieldKind::One(Scalar::Double), FieldKind::One(Scalar::Double), FieldKind::One(Scalar::Double), FieldKind::One(Scalar::Float), FieldKind::One(Scalar::Float), FieldKind::One(Scalar::Byte), FieldKind::One(Scalar::VarInt), FieldKind::One(Scalar::Bool)],
        PacketKind::DestroyEntities => seq![FieldKind::Counted(Scalar::VarInt)],
        PacketKind::EntityHeadLook => seq![FieldKind::One(Scalar::VarInt), FieldKind::One(Scalar::UByte)],
        PacketKind::EntityMetadata => seq![FieldKind::One(Scalar::VarInt)],
        PacketKind::EntityVelocity => seq![FieldKind::One(Scalar::VarInt), FieldKind::One(Scalar::Short), FieldKind::One(Scalar::Short), FieldKind::One(Scalar::Short)],
        PacketKind::UpdateHealth => seq![FieldKind::One(Scalar::Float), FieldKind::One(Scalar::VarInt), FieldKind::One(Scalar::Float)],
        PacketKind::TimeUpdate => seq![FieldKind::One(Scalar::Long), FieldKind::One(Scalar::Long)],
        PacketKind::SoundEffect => Seq::empty(),
        PacketKind::EntityTeleport => seq![FieldKind::One(Scalar::VarInt), FieldKind::One(Scalar::Double), FieldKind::One(Scalar::Double), FieldKind::One(Scalar::Double), FieldKind::One(Scalar::UByte), FieldKind::One(Scalar::UByte), FieldKind::One(Scalar::Bool)],
    }
}

impl Status {
    /// The values of the fields, in the order they are sent.
    pub open spec fn fields(self) -> Seq<FieldValue> {
        seq![FieldValue::Text(self.response.0@)]
    }
}

impl Disconnect {
    /// The values of the fields, in the order they are sent.
    pub open spec fn fields(self) -> Seq<FieldValue> {
        seq![FieldValue::Text(self.reason.0@)]
    }
}

impl SpawnEntity {
    /// The values of the fields, in the order they are sent.
    pub open spec fn fields(self) -> Seq<FieldValue> {
        seq![FieldValue::Num(self.entity_id.0 as int), FieldValue::Ident(self.uuid.0[0] as int, self.uuid.0[1] as int), FieldValue::Num(self.entity_type.0 as int), FieldValue::Num(self.x.0 as int), FieldValue::Num(self.y.0 as int), FieldValue::Num(self.z.0 as int), FieldValue::Num(self.pitch.0 as int), FieldValue::Num(self.yaw.0 as int), FieldValue::Num(self.data.0 as int), FieldValue::Num(self.vx.0 as int), FieldValue::Num(self.vy.0 as int), FieldValue::Num(self.vz.0 as int)]
    }
}

impl SpawnLivingEntity {
    /// The values of the fields, in the order they are sent.
    pub open spec fn fields(self) -> Seq<FieldValue> {
        seq![FieldValue::Num(self.entity_id.0 as int), FieldValue::Ident(self.uuid.0[0] as int, self.uuid.0[1] as int), FieldValue::Num(self.entity_type.0 as int), FieldValue::Num(self.x.0 as int), FieldValue::Num(self.y.0 as int), FieldValue::Num(self.z.0 as int), FieldValue::Num(self.yaw.0 as int), FieldValue::Num(self.pitch.0 as int), FieldValue::Num(self.head_pitch.0 as int), FieldValue::Num(self.vx.0 as int), FieldValue::Num(self.vy.0 as int), FieldValue::Num(self.vz.0 as int)]
    }
}

impl BlockChange {
    /// The values of the fields, in the order they are sent.
    pub open spec fn fields(self) -> Seq<FieldValue> {
        seq![FieldValue::Coords(self.block_pos.0 as int, self.block_pos.1 as int, self.block_pos.2 as int), FieldValue::Num(self.block_state_id.0 as int)]
    }
}

impl ServerDifficulty {
    /// The values of the fields, in the order they are sent.
    pub open spec fn fields(self) -> Seq<FieldValue> {
        seq![FieldValue::Num(self.difficulty.0 as int), FieldValue::Flag(self.locked.0)]
    }
}

impl ChatIncoming {
    /// The values of the fields, in the order they are sent.
    pub open spec fn fields(self) -> Seq<FieldValue> {
        seq![FieldValue::Text(self.json.0@), FieldValue::Num(self.position.0 as int), FieldValue::Ident(self.sender.0[0] as int, self.sender.0[1] as int)]
    }
}

impl KeepAliveClientbound {
    /// The values of the fields, in the order they are sent.
    pub open spec fn fields(self) -> Seq<FieldValue> {
        seq![FieldValue::Num(self.keep_alive_id.0 as int)]
    }
}

impl ChunkData {
    /// The values of the fields, in the order they are sent.
    pub open spec fn fields(self) -> Seq<FieldValue> {
        seq![FieldValue::Num(self.x.0 as int), FieldValue::Num(self.z.0 as int), FieldValue::Counted(self.bit_mask_len.0 as int, long_values(self.bit_mask@)), FieldValue::Compound(nbt_long_arrays(self.heightmaps.0)), FieldValue::Counted(self.biomes_len.0 as int, varint_values(self.biomes@)), FieldValue::Counted(self.data_len.0 as int, byte_values(self.data@)), FieldValue::Counted(self.block_entities_len.0 as int, nbt_values(self.block_entities@))]
    }
}

impl JoinGame {
    /// The values of the fields, in the order they are sent.
    pub open spec fn fields(self) -> Seq<FieldValue> {
        seq![FieldValue::Num(self.player_id.0 as int), FieldValue::Flag(self.is_hardcore.0), FieldValue::Num(self.gamemode.0 as int), FieldValue::Num(self.prev_gamemode.0 as int), FieldValue::Counted(self.world_names_len.0 as int, string_values(self.world_names@)), FieldValue::Compound(nbt_long_arrays(self.dimension_codec.0)), FieldValue::Compound(nbt_long_arrays(self.dimension.0)), FieldValue::Text(self.world_name.0@), FieldValue::Num(self.hashed_seed.0 as int), FieldValue::Num(self.max_players.0 as int), FieldValue::Num(self.view_distance.0 as int), FieldValue::Flag(self.reduced_debug_info.0), FieldValue::Flag(self.enable_respawn_screen.0), FieldValue::Flag(self.is_debug.0), FieldValue::Flag(self.is_flat.0)]
    }
}

impl EntityPosition {
    /// The values of the fields, in the order they are sent.
    pub open spec fn fields(self) -> Seq<FieldValue> {
        seq![FieldValue::Num(self.entity_id.0 as int), FieldValue::Num(self.dx.0 as int), FieldValue::Num(self.dy.0 as int), FieldValue::Num(self.dz.0 as int), FieldValue::Flag(self.on_ground.0)]
    }
}

impl EntityPositionAndRotation {
    /// The values of the fields, in the order they are sent.
    pub open spec fn fields(self) -> Seq<FieldValue> {
        seq![FieldValue::Num(self.entity_id.0 as int), FieldValue::Num(self.dx.0 as int), FieldValue::Num(self.dy.0 as int), FieldValue::Num(self.dz.0 as int), FieldValue::Num(self.yaw.0 as int), FieldValue::Num(self.pitch.0 as int), FieldValue::Flag(self.on_ground.0)]
    }
}

impl EntityRotation {
    /// The values of the fields, in the order they are sent.
    pub open spec fn fields(self) -> Seq<FieldValue> {
        seq![FieldValue::Num(self.entity_id.0 as int), FieldValue::Num(self.yaw.0 as int), FieldValue::Num(self.pitch.0 as int), FieldValue::Flag(self.on_ground.0)]
    }
}

impl PlayerPositionAndLook {
    /// The values of the fields, in the order they are sent.
    pub open spec fn fields(self) -> Seq<FieldValue> {
        seq![FieldValue::Num(self.x.0 as int), FieldValue::Num(self.y.0 as int), FieldValue::Num(self.z.0 as int), FieldValue::Num(self.yaw.0 as int), FieldValue::Num(self.pitch.0 as int), FieldValue::Num(self.flags.0 as int), FieldValue::Num(self.teleport_id.0 as int), FieldValue::Flag(self.dismount.0)]
    }
}

impl DestroyEntities {
    /// The values of the fields, in the order they are sent.
    pub open spec fn fields(self) -> Seq<FieldValue> {
        seq![FieldValue::Counted(self.entities_len.0 as int, varint_values(self.entities@))]
    }
}

impl EntityHeadLook {
    /// The values of the fields, in the order they are sent.
    pub open spec fn fields(self) -> Seq<FieldValue> {
        seq![FieldValue::Num(self.entity_id.0 as int), FieldValue::Num(self.head_yaw.0 as int)]
    }
}

impl EntityMetadata {
    /// The values of the fields, in the order they are sent.
    pub open spec fn fields(self) -> Seq<FieldValue> {
        seq![FieldValue::Num(self.entity_id.0 as int)]
    }
}

impl EntityVelocity {
    /// The values of the fields, in the order they are sent.
    pub open spec fn fields(self) -> Seq<FieldValue> {
        seq![FieldValue::Num(self.entity_id.0 as int), FieldValue::Num(self.vx.0 as int), FieldValue::Num(self.vy.0 as int), FieldValue::Num(self.vz.0 as int)]
    }
}

impl UpdateHealth {
    /// The values of the fields, in the order they are sent.
    pub open spec fn fields(self) -> Seq<FieldValue> {
        seq![FieldValue::Num(self.health.0 as int), FieldValue::Num(self.food.0 as int), FieldValue::Num(self.saturation.0 as int)]
    }
}

impl TimeUpdate {
    /// The values of the fields, in the order they are sent.
    pub open spec fn fields(self) -> Seq<FieldValue> {
        seq![FieldValue::Num(self.world_age.0 as int), FieldValue::Num(self.day_time.0 as int)]
    }
}

impl SoundEffect {
    /// The values of the fields, in the order they are sent.
    pub open spec fn fields(self) -> Seq<FieldValue> {
        Seq::empty()
    }
}

impl EntityTeleport {
    /// The values of the fields, in the order they are sent.
    pub open spec fn fields(self) -> Seq<FieldValue> {
        seq![FieldValue::Num(self.entity_id.0 as int), FieldValue::Num(self.x.0 as int), FieldValue::Num(self.y.0 as int), FieldValue::Num(self.z.0 as int), FieldValue::Num(self.yaw.0 as int), FieldValue::Num(self.pitch.0 as int), FieldValue::Flag(self.on_ground.0)]
    }
}

/// Reads the fields of a `Status` packet from just after its ID.
fn decode_status(pd: &mut PacketDecoder) -> (p: Status)
    requires
        old(pd).index() == 1,
        read_layout(old(pd).buffer(), layout(PacketKind::Status)) is Some,
    ensures
        read_layout(old(pd).buffer(), layout(PacketKind::Status)) == Some(p.fields()),
{
    let ghost l = layout(PacketKind::Status);
    let ghost buf = pd.buffer();
    proof {
        lemma_prefix_start(buf, 1, l);
    }
    assert(l.len() == 1);
    let response = take_string(pd, Ghost(1), Ghost(l), Ghost(0));
    let p = Status { response };
    assert(read_prefix(buf, 1, l, l.len()).unwrap().0 =~= p.fields());
    p
}

/// Reads the fields of a `Disconnect` packet from just after its ID.
fn decode_disconnect(pd: &mut PacketDecoder) -> (p: Disconnect)
    requires
        old(pd).index() == 1,
        read_layout(old(pd).buffer(), layout(PacketKind::Disconnect)) is Some,
    ensures
        read_layout(old(pd).buffer(), layout(PacketKind::Disconnect)) == Some(p.fields()),
{
    let ghost l = layout(PacketKind::Disconnect);
    let ghost buf = pd.buffer();
    proof {
        lemma_prefix_start(buf, 1, l);
    }
    assert(l.len() == 1);
    let reason = take_string(pd, Ghost(1), Ghost(l), Ghost(0));
    let p = Disconnect { reason };
    assert(read_prefix(buf, 1, l, l.len()).unwrap().0 =~= p.fields());
    p
}

/// Reads the fields of a `SpawnEntity` packet from just after its ID.
fn decode_spawn_entity(pd: &mut PacketDecoder) -> (p: SpawnEntity)
    requires
        old(pd).index() == 1,
        read_layout(old(pd).buffer(), layout(PacketKind::SpawnEntity)) is Some,
    ensures
        read_layout(old(pd).buffer(), layout(PacketKind::SpawnEntity)) == Some(p.fields()),
{
    let ghost l = layout(PacketKind::SpawnEntity);
    let ghost buf = pd.buffer();
    proof {
        lemma_prefix_start(buf, 1, l);
    }
    assert(l.len() == 12);
    let entity_id = take_varint(pd, Ghost(1), Ghost(l), Ghost(0));
    let uuid = take_uuid(pd, Ghost(1), Ghost(l), Ghost(1));
    let entity_type = take_varint(pd, Ghost(1), Ghost(l), Ghost(2));
    let x = take_double(pd, Ghost(1), Ghost(l), Ghost(3));
    let y = take_double(pd, Ghost(1), Ghost(l), Ghost(4));
    let z = take_double(pd, Ghost(1), Ghost(l), Ghost(5));
    let pitch = take_ubyte(pd, Ghost(1), Ghost(l), Ghost(6));
    let yaw = take_ubyte(pd, Ghost(1), Ghost(l), Ghost(7));
    let data = take_int(pd, Ghost(1), Ghost(l), Ghost(8));
    let vx = take_short(pd, Ghost(1), Ghost(l), Ghost(9));
    let vy = take_short(pd, Ghost(1), Ghost(l), Ghost(10));
    let vz = take_short(pd, Ghost(1), Ghost(l), Ghost(11));
    let p = SpawnEntity { entity_id, uuid, entity_type, x, y, z, pitch, yaw, data, vx, vy, vz };
    assert(read_prefix(buf, 1, l, l.len()).unwrap().0 =~= p.fields());
    p
}

/// Reads the fields of a `SpawnLivingEntity` packet from just after its ID.
fn decode_spawn_living_entity(pd: &mut PacketDecoder) -> (p: SpawnLivingEntity)
    requires
        old(pd).index() == 1,
        read_layout(old(pd).buffer(), layout(PacketKind::SpawnLivingEntity)) is Some,
    ensures
        read_layout(old(pd).buffer(), layout(PacketKind::SpawnLivingEntity)) == Some(p.fields()),
{
    let ghost l = layout(PacketKind::SpawnLivingEntity);
    let ghost buf = pd.buffer();
    proof {
        lemma_prefix_start(buf, 1, l);
    }
    assert(l.len() == 12);
    let entity_id = take_varint(pd, Ghost(1), Ghost(l), Ghost(0));
    let uuid = take_uuid(pd, Ghost(1), Ghost(l), Ghost(1));
    let entity_type = take_varint(pd, Ghost(1), Ghost(l), Ghost(2));
    let x = take_double(pd, Ghost(1), Ghost(l), Ghost(3));
    let y = take_double(pd, Ghost(1), Ghost(l), Ghost(4));
    let z = take_double(pd, Ghost(1), Ghost(l), Ghost(5));
    let yaw = take_ubyte(pd, Ghost(1), Ghost(l), Ghost(6));
    let pitch = take_ubyte(pd, Ghost(1), Ghost(l), Ghost(7));
    let head_pitch = take_ubyte(pd, Ghost(1), Ghost(l), Ghost(8));
    let vx = take_short(pd, Ghost(1), Ghost(l), Ghost(9));
    let vy = take_short(pd, Ghost(1), Ghost(l), Ghost(10));
    let vz = take_short(pd, Ghost(1), Ghost(l), Ghost(11));
    let p = SpawnLivingEntity { entity_id, uuid, entity_type, x, y, z, yaw, pitch, head_pitch, vx, vy, vz };
    assert(read_prefix(buf, 1, l, l.len()).unwrap().0 =~= p.fields());
    p
}

/// Reads the fields of a `BlockChange` packet from just after its ID.
fn decode_block_change(pd: &mut PacketDecoder) -> (p: BlockChange)
    requires
        old(pd).index() == 1,
        read_layout(old(pd).buffer(), layout(PacketKind::BlockChange)) is Some,
    ensures
        read_layout(old(pd).buffer(), layout(PacketKind::BlockChange)) == Some(p.fields()),
{
    let ghost l = layout(PacketKind::BlockChange);
    let ghost buf = pd.buffer();
    proof {
        lemma_prefix_start(buf, 1, l);
    }
    assert(l.len() == 2);
    let block_pos = take_position(pd, Ghost(1), Ghost(l), Ghost(0));
    let block_state_id = take_varint(pd, Ghost(1), Ghost(l), Ghost(1));
    let p = BlockChange { block_pos, block_state_id };
    assert(read_prefix(buf, 1, l, l.len()).unwrap().0 =~= p.fields());
    p
}

/// Reads the fields of a `ServerDifficulty` packet from just after its ID.
fn decode_server_difficulty(pd: &mut PacketDecoder) -> (p: ServerDifficulty)
    requires
        old(pd).index() == 1,
        read_layout(old(pd).buffer(), layout(PacketKind::ServerDifficulty)) is Some,
    ensures
        read_layout(old(pd).buffer(), layout(PacketKind::ServerDifficulty)) == Some(p.fields()),
{
    let ghost l = layout(PacketKind::ServerDifficulty);
    let ghost buf = pd.buffer();
    proof {
        lemma_prefix_start(buf, 1, l);
    }
    assert(l.len() == 2);
    let difficulty = take_ubyte(pd, Ghost(1), Ghost(l), Ghost(0));
    let locked = take_bool(pd, Ghost(1), Ghost(l), Ghost(1));
    let p = ServerDifficulty { difficulty, locked };
    assert(read_prefix(buf, 1, l, l.len()).unwrap().0 =~= p.fields());
    p
}

/// Reads the fields of a `ChatIncoming` packet from just after its ID.
fn decode_chat_incoming(pd: &mut PacketDecoder) -> (p: ChatIncoming)
    requires
        old(pd).index() == 1,
        read_layout(old(pd).buffer(), layout(PacketKind::ChatIncoming)) is Some,
    ensures
        read_layout(old(pd).buffer(), layout(PacketKind::ChatIncoming)) == Some(p.fields()),
{
    let ghost l = layout(PacketKind::ChatIncoming);
    let ghost buf = pd.buffer();
    proof {
        lemma_prefix_start(buf, 1, l);
    }
    assert(l.len() == 3);
    let json = take_string(pd, Ghost(1), Ghost(l), Ghost(0));
    let position = take_byte(pd, Ghost(1), Ghost(l), Ghost(1));
    let sender = take_uuid(pd, Ghost(1), Ghost(l), Ghost(2));
    let p = ChatIncoming { json, position, sender };
    assert(read_prefix(buf, 1, l, l.len()).unwrap().0 =~= p.fields());
    p
}

/// Reads the fields of a `KeepAliveClientbound` packet from just after its ID.
fn decode_keep_alive_clientbound(pd: &mut PacketDecoder) -> (p: KeepAliveClientbound)
    requires
        old(pd).index() == 1,
        read_layout(old(pd).buffer(), layout(PacketKind::KeepAliveClientbound)) is Some,
    ensures
        read_layout(old(pd).buffer(), layout(PacketKind::KeepAliveClientbound)) == Some(p.fields()),
{
    let ghost l = layout(PacketKind::KeepAliveClientbound);
    let ghost buf = pd.buffer();
    proof {
        lemma_prefix_start(buf, 1, l);
    }
    assert(l.len() == 1);
    let keep_alive_id = take_long(pd, Ghost(1), Ghost(l), Ghost(0));
    let p = KeepAliveClientbound { keep_alive_id };
    assert(read_prefix(buf, 1, l, l.len()).unwrap().0 =~= p.fields());
    p
}

/// Reads the fields of a `ChunkData` packet from just after its ID.
fn decode_chunk_data(pd: &mut PacketDecoder) -> (p: ChunkData)
    requires
        old(pd).index() == 1,
        read_layout(old(pd).buffer(), layout(PacketKind::ChunkData)) is Some,
    ensures
        read_layout(old(pd).buffer(), layout(PacketKind::ChunkData)) == Some(p.fields()),
{
    let ghost l = layout(PacketKind::ChunkData);
    let ghost buf = pd.buffer();
    proof {
        lemma_prefix_start(buf, 1, l);
    }
    assert(l.len() == 7);
    let x = take_int(pd, Ghost(1), Ghost(l), Ghost(0));
    let z = take_int(pd, Ghost(1), Ghost(l), Ghost(1));
    let (bit_mask_len, bit_mask) = take_longs(pd, Ghost(1), Ghost(l), Ghost(2));
    let heightmaps = take_nbt(pd, Ghost(1), Ghost(l), Ghost(3));
    let (biomes_len, biomes) = take_varints(pd, Ghost(1), Ghost(l), Ghost(4));
    let (data_len, data) = take_bytes(pd, Ghost(1), Ghost(l), Ghost(5));
    let (block_entities_len, block_entities) = take_nbts(pd, Ghost(1), Ghost(l), Ghost(6));
    let p = ChunkData { x, z, bit_mask_len, bit_mask, heightmaps, biomes_len, biomes, data_len, data, block_entities_len, block_entities };
    assert(read_prefix(buf, 1, l, l.len()).unwrap().0 =~= p.fields());
    p
}

/// Reads the fields of a `JoinGame` packet from just after its ID.
fn decode_join_game(pd: &mut PacketDecoder) -> (p: JoinGame)
    requires
        old(pd).index() == 1,
        read_layout(old(pd).buffer(), layout(PacketKind::JoinGame)) is Some,
    ensures
        read_layout(old(pd).buffer(), layout(PacketKind::JoinGame)) == Some(p.fields()),
{
    let ghost l = layout(PacketKind::JoinGame);
    let ghost buf = pd.buffer();
    proof {
        lemma_prefix_start(buf, 1, l);
    }
    assert(l.len() == 15);
    let player_id = take_int(pd, Ghost(1), Ghost(l), Ghost(0));
    let is_hardcore = take_bool(pd, Ghost(1), Ghost(l), Ghost(1));
    let gamemode = take_ubyte(pd, Ghost(1), Ghost(l), Ghost(2));
    let prev_gamemode = take_byte(pd, Ghost(1), Ghost(l), Ghost(3));
    let (world_names_len, world_names) = take_strings(pd, Ghost(1), Ghost(l), Ghost(4));
    let dimension_codec = take_nbt(pd, Ghost(1), Ghost(l), Ghost(5));
    let dimension = take_nbt(pd, Ghost(1), Ghost(l), Ghost(6));
    let world_name = take_string(pd, Ghost(1), Ghost(l), Ghost(7));
    let hashed_seed = take_long(pd, Ghost(1), Ghost(l), Ghost(8));
    let max_players = take_varint(pd, Ghost(1), Ghost(l), Ghost(9));
    let view_distance = take_varint(pd, Ghost(1), Ghost(l), Ghost(10));
    let reduced_debug_info = take_bool(pd, Ghost(1), Ghost(l), Ghost(11));
    let enable_respawn_screen = take_bool(pd, Ghost(1), Ghost(l), Ghost(12));
    let is_debug = take_bool(pd, Ghost(1), Ghost(l), Ghost(13));
    let is_flat = take_bool(pd, Ghost(1), Ghost(l), Ghost(14));
    let p = JoinGame { player_id, is_hardcore, gamemode, prev_gamemode, world_names_len, world_names, dimension_codec, dimension, world_name, hashed_seed, max_players, view_distance, reduced_debug_info, enable_respawn_screen, is_debug, is_flat };
    assert(read_prefix(buf, 1, l, l.len()).unwrap().0 =~= p.fields());
    p
}

/// Reads the fields of a `EntityPosition` packet from just after its ID.
fn decode_entity_position(pd: &mut PacketDecoder) -> (p: EntityPosition)
    requires
        old(pd).index() == 1,
        read_layout(old(pd).buffer(), layout(PacketKind::EntityPosition)) is Some,
    ensures
        read_layout(old(pd).buffer(), layout(PacketKind::EntityPosition)) == Some(p.fields()),
{
    let ghost l = layout(PacketKind::EntityPosition);
    let ghost buf = pd.buffer();
    proof {
        lemma_prefix_start(buf, 1, l);
    }
    assert(l.len() == 5);
    let entity_id = take_varint(pd, Ghost(1), Ghost(l), Ghost(0));
    let dx = take_short(pd, Ghost(1), Ghost(l), Ghost(1));
    let dy = take_short(pd, Ghost(1), Ghost(l), Ghost(2));
    let dz = take_short(pd, Ghost(1), Ghost(l), Ghost(3));
    let on_ground = take_bool(pd, Ghost(1), Ghost(l), Ghost(4));
    let p = EntityPosition { entity_id, dx, dy, dz, on_ground };
    assert(read_prefix(buf, 1, l, l.len()).unwrap().0 =~= p.fields());
    p
}

/// Reads the fields of a `EntityPositionAndRotation` packet from just after its ID.
fn decode_entity_position_and_rotation(pd: &mut PacketDecoder) -> (p: EntityPositionAndRotation)
    requires
        old(pd).index() == 1,
        read_layout(old(pd).buffer(), layout(PacketKind::EntityPositionAndRotation)) is Some,
    ensures
        read_layout(old(pd).buffer(), layout(PacketKind::EntityPositionAndRotation)) == Some(p.fields()),
{
    let ghost l = layout(PacketKind::EntityPositionAndRotation);
    let ghost buf = pd.buffer();
    proof {
        lemma_prefix_start(buf, 1, l);
    }
    assert(l.len() == 7);
    let entity_id = take_varint(pd, Ghost(1), Ghost(l), Ghost(0));
    let dx = take_short(pd, Ghost(1), Ghost(l), Ghost(1));
    let dy = take_short(pd, Ghost(1), Ghost(l), Ghost(2));
    let dz = take_short(pd, Ghost(1), Ghost(l), Ghost(3));
    let yaw = take_ubyte(pd, Ghost(1), Ghost(l), Ghost(4));
    let pitch = take_ubyte(pd, Ghost(1), Ghost(l), Ghost(5));
    let on_ground = take_bool(pd, Ghost(1), Ghost(l), Ghost(6));
    let p = EntityPositionAndRotation { entity_id, dx, dy, dz, yaw, pitch, on_ground };
    assert(read_prefix(buf, 1, l, l.len()).unwrap().0 =~= p.fields());
    p
}

/// Reads the fields of a `EntityRotation` packet from just after its ID.
fn decode_entity_rotation(pd: &mut PacketDecoder) -> (p: EntityRotation)
    requires
        old(pd).index() == 1,
        read_layout(old(pd).buffer(), layout(PacketKind::EntityRotation)) is Some,
    ensures
        read_layout(old(pd).buffer(), layout(PacketKind::EntityRotation)) == Some(p.fields()),
{
    let ghost l = layout(PacketKind::EntityRotation);
    let ghost buf = pd.buffer();
    proof {
        lemma_prefix_start(buf, 1, l);
    }
    assert(l.len() == 4);
    let entity_id = take_varint(pd, Ghost(1), Ghost(l), Ghost(0));
    let yaw = take_ubyte(pd, Ghost(1), Ghost(l), Ghost(1));
    let pitch = take_ubyte(pd, Ghost(1), Ghost(l), Ghost(2));
    let on_ground = take_bool(pd, Ghost(1), Ghost(l), Ghost(3));
    let p = EntityRotation { entity_id, yaw, pitch, on_ground };
    assert(read_prefix(buf, 1, l, l.len()).unwrap().0 =~= p.fields());
    p
}

/// Reads the fields of a `PlayerPositionAndLook` packet from just after its ID.
fn decode_player_position_and_look(pd: &mut PacketDecoder) -> (p: PlayerPositionAndLook)
    requires
        old(pd).index() == 1,
        read_layout(old(pd).buffer(), layout(PacketKind::PlayerPositionAndLook)) is Some,
    ensures
        read_layout(old(pd).buffer(), layout(PacketKind::PlayerPositionAndLook)) == Some(p.fields()),
{
    let ghost l = layout(PacketKind::PlayerPositionAndLook);
    let ghost buf = pd.buffer();
    proof {
        lemma_prefix_start(buf, 1, l);
    }
    assert(l.len() == 8);
    let x = take_double(pd, Ghost(1), Ghost(l), Ghost(0));
    let y = take_double(pd, Ghost(1), Ghost(l), Ghost(1));
    let z = take_double(pd, Ghost(1), Ghost(l), Ghost(2));
    let yaw = take_float(pd, Ghost(1), Ghost(l), Ghost(3));
    let pitch = take_float(pd, Ghost(1), Ghost(l), Ghost(4));
    let flags = take_byte(pd, Ghost(1), Ghost(l), Ghost(5));
    let teleport_id = take_varint(pd, Ghost(1), Ghost(l), Ghost(6));
    let dismount = take_bool(pd, Ghost(1), Ghost(l), Ghost(7));
    let p = PlayerPositionAndLook { x, y, z, yaw, pitch, flags, teleport_id, dismount };
    assert(read_prefix(buf, 1, l, l.len()).unwrap().0 =~= p.fields());
    p
}

/// Reads the fields of a `DestroyEntities` packet from just after its ID.
fn decode_destroy_entities(pd: &mut PacketDecoder) -> (p: DestroyEntities)
    requires
        old(pd).index() == 1,
        read_layout(old(pd).buffer(), layout(PacketKind::DestroyEntities)) is Some,
    ensures
        read_layout(old(pd).buffer(), layout(PacketKind::DestroyEntities)) == Some(p.fields()),
{
    let ghost l = layout(PacketKind::DestroyEntities);
    let ghost buf = pd.buffer();
    proof {
        lemma_prefix_start(buf, 1, l);
    }
    assert(l.len() == 1);
    let (entities_len, entities) = take_varints(pd, Ghost(1), Ghost(l), Ghost(0));
    let p = DestroyEntities { entities_len, entities };
    assert(read_prefix(buf, 1, l, l.len()).unwrap().0 =~= p.fields());
    p
}

/// Reads the fields of a `EntityHeadLook` packet from just after its ID.
fn decode_entity_head_look(pd: &mut PacketDecoder) -> (p: EntityHeadLook)
    requires
        old(pd).index() == 1,
        read_layout(old(pd).buffer(), layout(PacketKind::EntityHeadLook)) is Some,
    ensures
        read_layout(old(pd).buffer(), layout(PacketKind::EntityHeadLook)) == Some(p.fields()),
{
    let ghost l = layout(PacketKind::EntityHeadLook);
    let ghost buf = pd.buffer();
    proof {
        lemma_prefix_start(buf, 1, l);
    }
    assert(l.len() == 2);
    let entity_id = take_varint(pd, Ghost(1), Ghost(l), Ghost(0));
    let head_yaw = take_ubyte(pd, Ghost(1), Ghost(l), Ghost(1));
    let p = EntityHeadLook { entity_id, head_yaw };
    assert(read_prefix(buf, 1, l, l.len()).unwrap().0 =~= p.fields());
    p
}

/// Reads the fields of a `EntityMetadata` packet from just after its ID.
fn decode_entity_metadata(pd: &mut PacketDecoder) -> (p: EntityMetadata)
    requires
        old(pd).index() == 1,
        read_layout(old(pd).buffer(), layout(PacketKind::EntityMetadata)) is Some,
    ensures
        read_layout(old(pd).buffer(), layout(PacketKind::EntityMetadata)) == Some(p.fields()),
{
    let ghost l = layout(PacketKind::EntityMetadata);
    let ghost buf = pd.buffer();
    proof {
        lemma_prefix_start(buf, 1, l);
    }
    assert(l.len() == 1);
    let entity_id = take_varint(pd, Ghost(1), Ghost(l), Ghost(0));
    let p = EntityMetadata { entity_id };
    assert(read_prefix(buf, 1, l, l.len()).unwrap().0 =~= p.fields());
    p
}

/// Reads the fields of a `EntityVelocity` packet from just after its ID.
fn decode_entity_velocity(pd: &mut PacketDecoder) -> (p: EntityVelocity)
    requires
        old(pd).index() == 1,
        read_layout(old(pd).buffer(), layout(PacketKind::EntityVelocity)) is Some,
    ensures
        read_layout(old(pd).buffer(), layout(PacketKind::EntityVelocity)) == Some(p.fields()),
{
    let ghost l = layout(PacketKind::EntityVelocity);
    let ghost buf = pd.buffer();
    proof {
        lemma_prefix_start(buf, 1, l);
    }
    assert(l.len() == 4);
    let entity_id = take_varint(pd, Ghost(1), Ghost(l), Ghost(0));
    let vx = take_short(pd, Ghost(1), Ghost(l), Ghost(1));
    let vy = take_short(pd, Ghost(1), Ghost(l), Ghost(2));
    let vz = take_short(pd, Ghost(1), Ghost(l), Ghost(3));
    let p = EntityVelocity { entity_id, vx, vy, vz };
    assert(read_prefix(buf, 1, l, l.len()).unwrap().0 =~= p.fields());
    p
}

/// Reads the fields of a `UpdateHealth` packet from just after its ID.
fn decode_update_health(pd: &mut PacketDecoder) -> (p: UpdateHealth)
    requires
        old(pd).index() == 1,
        read_layout(old(pd).buffer(), layout(PacketKind::UpdateHealth)) is Some,
    ensures
        read_layout(old(pd).buffer(), layout(PacketKind::UpdateHealth)) == Some(p.fields()),
{
    let ghost l = layout(PacketKind::UpdateHealth);
    let ghost buf = pd.buffer();
    proof {
        lemma_prefix_start(buf, 1, l);
    }
    assert(l.len() == 3);
    let health = take_float(pd, Ghost(1), Ghost(l), Ghost(0));
    let food = take_varint(pd, Ghost(1), Ghost(l), Ghost(1));
    let saturation = take_float(pd, Ghost(1), Ghost(l), Ghost(2));
    let p = UpdateHealth { health, food, saturation };
    assert(read_prefix(buf, 1, l, l.len()).unwrap().0 =~= p.fields());
    p
}

/// Reads the fields of a `TimeUpdate` packet from just after its ID.
fn decode_time_update(pd: &mut PacketDecoder) -> (p: TimeUpdate)
    requires
        old(pd).index() == 1,
        read_layout(old(pd).buffer(), layout(PacketKind::TimeUpdate)) is Some,
    ensures
        read_layout(old(pd).buffer(), layout(PacketKind::TimeUpdate)) == Some(p.fields()),
{
    let ghost l = layout(PacketKind::TimeUpdate);
    let ghost buf = pd.buffer();
    proof {
        lemma_prefix_start(buf, 1, l);
    }
    assert(l.len() == 2);
    let world_age = take_long(pd, Ghost(1), Ghost(l), Ghost(0));
    let day_time = take_long(pd, Ghost(1), Ghost(l), Ghost(1));
    let p = TimeUpdate { world_age, day_time };
    assert(read_prefix(buf, 1, l, l.len()).unwrap().0 =~= p.fields());
    p
}

/// Reads the fields of a `SoundEffect` packet from just after its ID.
fn decode_sound_effect(pd: &mut PacketDecoder) -> (p: SoundEffect)
    requires
        old(pd).index() == 1,
        read_layout(old(pd).buffer(), layout(PacketKind::SoundEffect)) is Some,
    ensures
        read_layout(old(pd).buffer(), layout(PacketKind::SoundEffect)) == Some(p.fields()),
{
    let ghost l = layout(PacketKind::SoundEffect);
    let ghost buf = pd.buffer();
    proof {
        lemma_prefix_start(buf, 1, l);
    }
    let p = SoundEffect {};
    assert(read_prefix(buf, 1, l, l.len()).unwrap().0 =~= p.fields());
    p
}

/// Reads the fields of a `EntityTeleport` packet from just after its ID.
fn decode_entity_teleport(pd: &mut PacketDecoder) -> (p: EntityTeleport)
    requires
        old(pd).index() == 1,
        read_layout(old(pd).buffer(), layout(PacketKind::EntityTeleport)) is Some,
    ensures
        read_layout(old(pd).buffer(), layout(PacketKind::EntityTeleport)) == Some(p.fields()),
{
    let ghost l = layout(PacketKind::EntityTeleport);
    let ghost buf = pd.buffer();
    proof {
        lemma_prefix_start(buf, 1, l);
    }
    assert(l.len() == 7);
    let entity_id = take_varint(pd, Ghost(1), Ghost(l), Ghost(0));
    let x = take_double(pd, Ghost(1), Ghost(l), Ghost(1));
    let y = take_double(pd, Ghost(1), Ghost(l), Ghost(2));
    let z = take_double(pd, Ghost(1), Ghost(l), Ghost(3));
    let yaw = take_ubyte(pd, Ghost(1), Ghost(l), Ghost(4));
    let pitch = take_ubyte(pd, Ghost(1), Ghost(l), Ghost(5));
    let on_ground = take_bool(pd, Ghost(1), Ghost(l), Ghost(6));
    let p = EntityTeleport { entity_id, x, y, z, yaw, pitch, on_ground };
    assert(read_prefix(buf, 1, l, l.len()).unwrap().0 =~= p.fields());
    p
}

/// Which packet an ID stands for in a protocol state; `None` for the packets this library
/// does not decode.
pub open spec fn packet_kind(id: u8, state: ServerState) -> Option<PacketKind> {
    if id == 0x00 {
        match state {
            ServerState::Login => Some(PacketKind::Disconnect),
            ServerState::Play => Some(PacketKind::SpawnEntity),
            ServerState::Status => Some(PacketKind::Status),
        }
    } else if id == 0x02 {
        match state {
            ServerState::Login => Some(PacketKind::LoginSuccess),
            ServerState::Play => Some(PacketKind::SpawnLivingEntity),
            ServerState::Status => None,
        }
    } else if id == 0x03 {
        if state == ServerState::Login {
            Some(PacketKind::SetCompression)
        } else {
            None
        }
    } else if id == 0x0c {
        Some(PacketKind::BlockChange)
    } else if id == 0x0e {
        if state == ServerState::Play {
            Some(PacketKind::ServerDifficulty)
        } else {
            None
        }
    } else if id == 0x0f {
        if state == ServerState::Play {
            Some(PacketKind::ChatIncoming)
        } else {
            None
        }
    } else if id == 0x1a {
        Some(PacketKind::Disconnect)
    } else if id == 0x21 {
        Some(PacketKind::KeepAliveClientbound)
    } else if id == 0x22 {
        Some(PacketKind::ChunkData)
    } else if id == 0x26 {
        Some(PacketKind::JoinGame)
    } else if id == 0x29 {
        Some(PacketKind::EntityPosition)
    } else if id == 0x2a {
        Some(PacketKind::EntityPositionAndRotation)
    } else if id == 0x2b {
        Some(PacketKind::EntityRotation)
    } else if id == 0x38 {
        Some(PacketKind::PlayerPositionAndLook)
    } else if id == 0x3a {
        Some(PacketKind::DestroyEntities)
    } else if id == 0x3e {
        Some(PacketKind::EntityHeadLook)
    } else if id == 0x4d {
        Some(PacketKind::EntityMetadata)
    } else if id == 0x4f {
        Some(PacketKind::EntityVelocity)
    } else if id == 0x52 {
        Some(PacketKind::UpdateHealth)
    } else if id == 0x58 {
        Some(PacketKind::TimeUpdate)
    } else if id == 0x5c {
        Some(PacketKind::SoundEffect)
    } else if id == 0x61 {
        Some(PacketKind::EntityTeleport)
    } else {
        None
    }
}

/// Which packet an ID stands for in a protocol state.
pub fn kind_of(id: u8, state: &ServerState) -> (k: Option<PacketKind>)
    ensures
        k == packet_kind(id, *state),
{
    match id {
        0x00 => match state {
            ServerState::Login => Some(PacketKind::Disconnect),
            ServerState::Play => Some(PacketKind::SpawnEntity),
            ServerState::Status => Some(PacketKind::Status),
        },
        0x02 => match state {
            ServerState::Login => Some(PacketKind::LoginSuccess),
            ServerState::Play => Some(PacketKind::SpawnLivingEntity),
            ServerState::Status => None,
        },
        0x03 => match state {
            ServerState::Login => Some(PacketKind::SetCompression),
            _ => None,
        },
        0x0c => Some(PacketKind::BlockChange),
        0x0e => match state {
            ServerState::Play => Some(PacketKind::ServerDifficulty),
            _ => None,
        },
        0x0f => match state {
            ServerState::Play => Some(PacketKind::ChatIncoming),
            _ => None,
        },
        0x1a => Some(PacketKind::Disconnect),
        0x21 => Some(PacketKind::KeepAliveClientbound),
        0x22 => Some(PacketKind::ChunkData),
        0x26 => Some(PacketKind::JoinGame),
        0x29 => Some(PacketKind::EntityPosition),
        0x2a => Some(PacketKind::EntityPositionAndRotation),
        0x2b => Some(PacketKind::EntityRotation),
        0x38 => Some(PacketKind::PlayerPositionAndLook),
        0x3a => Some(PacketKind::DestroyEntities),
        0x3e => Some(PacketKind::EntityHeadLook),
        0x4d => Some(PacketKind::EntityMetadata),
        0x4f => Some(PacketKind::EntityVelocity),
        0x52 => Some(PacketKind::UpdateHealth),
        0x58 => Some(PacketKind::TimeUpdate),
        0x5c => Some(PacketKind::SoundEffect),
        0x61 => Some(PacketKind::EntityTeleport),
        _ => None,
    }
}

impl DecodedPacket {
    /// The packet and its field values, for the packets this library decodes.
    pub open spec fn kind_and_fields(self) -> Option<(PacketKind, Seq<FieldValue>)> {
        match self {
            DecodedPacket::Status(p) => Some((PacketKind::Status, p.fields())),
            DecodedPacket::Disconnect(p) => Some((PacketKind::Disconnect, p.fields())),
            DecodedPacket::SpawnEntity(p) => Some((PacketKind::SpawnEntity, p.fields())),
            DecodedPacket::LoginSuccess() => Some((PacketKind::LoginSuccess, Seq::empty())),
            DecodedPacket::SpawnLivingEntity(p) => Some(
                (PacketKind::SpawnLivingEntity, p.fields()),
            ),
            DecodedPacket::SetCompression(v) => Some(
                (PacketKind::SetCompression, seq![FieldValue::Num(v.0 as int)]),
            ),
            DecodedPacket::BlockChange(p) => Some((PacketKind::BlockChange, p.fields())),
            DecodedPacket::ServerDifficulty(p) => Some((PacketKind::ServerDifficulty, p.fields())),
            DecodedPacket::ChatIncoming(p) => Some((PacketKind::ChatIncoming, p.fields())),
            DecodedPacket::KeepAliveClientbound(p) => Some(
                (PacketKind::KeepAliveClientbound, p.fields()),
            ),
            DecodedPacket::ChunkData(p) => Some((PacketKind::ChunkData, p.fields())),
            DecodedPacket::JoinGame(p) => Some((PacketKind::JoinGame, p.fields())),
            DecodedPacket::EntityPosition(p) => Some((PacketKind::EntityPosition, p.fields())),
            DecodedPacket::EntityPositionAndRotation(p) => Some(
                (PacketKind::EntityPositionAndRotation, p.fields()),
            ),
            DecodedPacket::EntityRotation(p) => Some((PacketKind::EntityRotation, p.fields())),
            DecodedPacket::PlayerPositionAndLook(p) => Some(
                (PacketKind::PlayerPositionAndLook, p.fields()),
            ),
            DecodedPacket::DestroyEntities(p) => Some((PacketKind::DestroyEntities, p.fields())),
            DecodedPacket::EntityHeadLook(p) => Some((PacketKind::EntityHeadLook, p.fields())),
            DecodedPacket::EntityMetadata(p) => Some((PacketKind::EntityMetadata, p.fields())),
            DecodedPacket::EntityVelocity(p) => Some((PacketKind::EntityVelocity, p.fields())),
            DecodedPacket::UpdateHealth(p) => Some((PacketKind::UpdateHealth, p.fields())),
            DecodedPacket::TimeUpdate(p) => Some((PacketKind::TimeUpdate, p.fields())),
            DecodedPacket::SoundEffect(p) => Some((PacketKind::SoundEffect, p.fields())),
            DecodedPacket::EntityTeleport(p) => Some((PacketKind::EntityTeleport, p.fields())),
            _ => None,
        }
    }
}

/// Whether `decode_packet` can read the packet `buf` in `state` to its end without
/// failing: an empty packet or one it does not decode always can; for the others every
/// field of the packet's layout must be there and valid.
pub open spec fn decodable(buf: Seq<u8>, state: ServerState) -> bool {
    buf.len() > 0 ==> match packet_kind(buf[0], state) {
        Some(k) => read_layout(buf, layout(k)) is Some,
        None => true,
    }
}

/// What `decode_packet` gives for the packet `buf` in `state`: an empty packet is `Empty`,
/// a packet this library does not decode is `Unknown` with all its bytes, and any other
/// packet is the one its ID stands for, with the values read by its layout.
pub open spec fn decoded_as(buf: Seq<u8>, state: ServerState, out: DecodedPacket) -> bool {
    if buf.len() == 0 {
        out is Empty
    } else {
        match packet_kind(buf[0], state) {
            Some(k) => out.kind_and_fields() == Some((k, read_layout(buf, layout(k)).unwrap())),
            None => out matches DecodedPacket::Unknown(bytes) && bytes@ == buf,
        }
    }
}

/// Decodes a packet from its bytes, ID first, given the connection's protocol state.
pub fn decode_packet(packet: Vec<u8>, state: &ServerState) -> (out: DecodedPacket)
    requires
        decodable(packet@, *state),
    ensures
        decoded_as(packet@, *state, out),
{
    if packet.len() == 0 {
        return DecodedPacket::Empty;
    }
    let kind = match kind_of(packet[0], state) {
        Some(k) => k,
        None => {
            return DecodedPacket::Unknown(packet);
        },
    };
    let mut pd = PacketDecoder::new(&packet);
    match kind {
        PacketKind::Status => DecodedPacket::Status(decode_status(&mut pd)),
        PacketKind::Disconnect => DecodedPacket::Disconnect(decode_disconnect(&mut pd)),
        PacketKind::SpawnEntity => DecodedPacket::SpawnEntity(decode_spawn_entity(&mut pd)),
        PacketKind::LoginSuccess => {
            proof {
                lemma_prefix_start(packet@, 1, layout(PacketKind::LoginSuccess));
            }
            DecodedPacket::LoginSuccess()
        },
        PacketKind::SpawnLivingEntity => DecodedPacket::SpawnLivingEntity(
            decode_spawn_living_entity(&mut pd),
        ),
        PacketKind::SetCompression => {
            let ghost l = layout(PacketKind::SetCompression);
            proof {
                lemma_prefix_start(packet@, 1, l);
            }
            let threshold = take_varint(&mut pd, Ghost(1), Ghost(l), Ghost(0));
            assert(read_prefix(packet@, 1, l, l.len()).unwrap().0 =~= seq![
                FieldValue::Num(threshold.0 as int),
            ]);
            DecodedPacket::SetCompression(threshold)
        },
        PacketKind::BlockChange => DecodedPacket::BlockChange(decode_block_change(&mut pd)),
        PacketKind::ServerDifficulty => DecodedPacket::ServerDifficulty(
            decode_server_difficulty(&mut pd),
        ),
        PacketKind::ChatIncoming => DecodedPacket::ChatIncoming(decode_chat_incoming(&mut pd)),
        PacketKind::KeepAliveClientbound => DecodedPacket::KeepAliveClientbound(
            decode_keep_alive_clientbound(&mut pd),
        ),
        PacketKind::ChunkData => DecodedPacket::ChunkData(decode_chunk_data(&mut pd)),
        PacketKind::JoinGame => DecodedPacket::JoinGame(decode_join_game(&mut pd)),
        PacketKind::EntityPosition => DecodedPacket::EntityPosition(
            decode_entity_position(&mut pd),
        ),
        PacketKind::EntityPositionAndRotation => DecodedPacket::EntityPositionAndRotation(
            decode_entity_position_and_rotation(&mut pd),
        ),
        PacketKind::EntityRotation => DecodedPacket::EntityRotation(
            decode_entity_rotation(&mut pd),
        ),
        PacketKind::PlayerPositionAndLook => DecodedPacket::PlayerPositionAndLook(
            decode_player_position_and_look(&mut pd),
        ),
        PacketKind::DestroyEntities => DecodedPacket::DestroyEntities(
            decode_destroy_entities(&mut pd),
        ),
        PacketKind::EntityHeadLook => DecodedPacket::EntityHeadLook(
            decode_entity_head_look(&mut pd),
        ),
        PacketKind::EntityMetadata => DecodedPacket::EntityMetadata(
            decode_entity_metadata(&mut pd),
        ),
        PacketKind::EntityVelocity => DecodedPacket::EntityVelocity(
            decode_entity_velocity(&mut pd),
        ),
        PacketKind::UpdateHealth => DecodedPacket::UpdateHealth(decode_update_health(&mut pd)),
        PacketKind::TimeUpdate => DecodedPacket::TimeUpdate(decode_time_update(&mut pd)),
        PacketKind::SoundEffect => DecodedPacket::SoundEffect(decode_sound_effect(&mut pd)),
        PacketKind::EntityTeleport => DecodedPacket::EntityTeleport(
            decode_entity_teleport(&mut pd),
        ),
    }
}

/// The length of the base-128 number at `pos` when it ends within `max` bytes.
fn number_len_within(buf: &Vec<u8>, pos: usize, max: usize) -> (r: Option<usize>)
    requires
        pos <= buf@.len(),
    ensures
        match r {
            Some(n) => encoded_len(buf@.skip(pos as int)) == Some(n as nat) && n <= max,
            None => !ends_within(buf@.skip(pos as int), max as nat),
        },
{
    let ghost s = buf@.skip(pos as int);
    let mut i: usize = 0;
    while i < max && i < buf.len() - pos
        invariant
            pos <= buf@.len(),
            s == buf@.skip(pos as int),
            i <= max,
            i <= s.len(),
            forall|j: int| 0 <= j < i ==> s[j] >= 128,
        decreases max - i,
    {
        if buf[pos + i] < 128 {
            proof {
                lemma_encoded_len_at(s, (i + 1) as nat);
            }
            return Some(i + 1);
        }
        i += 1;
    }
    proof {
        lemma_encoded_len(s);
    }
    None
}

/// Whether a `VarInt` can be read at `pos`.
fn varint_readable_at(buf: &Vec<u8>, pos: usize) -> (b: bool)
    ensures
        b == varint_readable(buf@, pos as nat),
{
    if pos >= buf.len() {
        return false;
    }
    match number_len_within(buf, pos, 5) {
        Some(_) => true,
        None => buf.len() - pos <= 5,
    }
}

/// The position after a string at `pos`, if one can be read there.
fn string_end(buf: &Vec<u8>, pos: usize) -> (r: Option<usize>)
    ensures
        match read_string(buf@, pos as nat) {
            Some((_, p)) => r matches Some(q) && q == p,
            None => r is None,
        },
{
    let ghost rest = buf@.skip(pos as int);
    if !varint_readable_at(buf, pos) {
        proof {
            lemma_encoded_len(rest);
        }
        return None;
    }
    proof {
        lemma_encoded_len(rest);
    }
    let (len, n) = VarInt::from_vec(buf, pos);
    if n == 0 || len.0 < 0 {
        return None;
    }
    let nb = len.num_bytes();
    let avail = buf.len() - pos;
    if nb > avail || (len.0 as usize) > avail - nb {
        return None;
    }
    let start = pos + nb;
    let end = start + len.0 as usize;
    let payload = vstd::slice::slice_to_vec(vstd::slice::slice_subrange(buf.as_slice(), start, end));
    proof {
        assert(payload@ =~= mcstring_payload(rest, len.0));
    }
    match string_from_utf8(payload) {
        Ok(_) => {
            if n > usize::MAX - pos || (len.0 as usize) > usize::MAX - pos - n {
                None
            } else {
                Some(pos + n + len.0 as usize)
            }
        },
        Err(_) => None,
    }
}

/// The position after a single field of kind `kind` at `pos`, if one can be read there.
fn scalar_end(buf: &Vec<u8>, pos: usize, kind: Scalar) -> (r: Option<usize>)
    ensures
        match read_scalar(buf@, pos as nat, kind) {
            Some((_, p)) => r matches Some(q) && q == p,
            None => r is None,
        },
{
    let len = buf.len();
    match kind {
        Scalar::Bool => if pos < len && buf[pos] <= 1 {
            Some(pos + 1)
        } else {
            None
        },
        Scalar::Byte | Scalar::UByte => if pos < len {
            Some(pos + 1)
        } else {
            None
        },
        Scalar::Short => if pos <= len && len - pos >= 2 {
            Some(pos + 2)
        } else {
            None
        },
        Scalar::Int | Scalar::Float => if pos <= len && len - pos >= 4 {
            Some(pos + 4)
        } else {
            None
        },
        Scalar::Long | Scalar::Double | Scalar::Position => if pos <= len && len - pos >= 8 {
            Some(pos + 8)
        } else {
            None
        },
        Scalar::VarInt => if varint_readable_at(buf, pos) {
            proof {
                lemma_encoded_len(buf@.skip(pos as int));
            }
            let (_, n) = VarInt::from_vec(buf, pos);
            Some(pos + n)
        } else {
            None
        },
        Scalar::Str => string_end(buf, pos),
        Scalar::Uuid => if pos <= len && len - pos >= 16 {
            Some(pos + 16)
        } else {
            None
        },
        Scalar::Nbt => if nbt_scan(buf, pos).is_some() {
            match read_compound_at(buf, pos) {
                Some((_, end)) => Some(end),
                None => None,
            }
        } else {
            None
        },
    }
}

/// When one of a run of repeated fields cannot be read, neither can the whole run.
proof fn lemma_repeated_stops(buf: Seq<u8>, pos: nat, kind: Scalar, k: nat, n: nat)
    requires
        k < n,
        read_repeated(buf, pos, kind, k) matches Some((_, p)) && read_scalar(buf, p, kind) is None,
    ensures
        read_repeated(buf, pos, kind, n) is None,
{
    if read_repeated(buf, pos, kind, n) is Some {
        lemma_repeated_shorter(buf, pos, kind, k + 1, n);
    }
}

/// The position after a layout entry at `pos`, if one can be read there.
pub(crate) fn field_end(buf: &Vec<u8>, pos: usize, kind: FieldKind) -> (r: Option<usize>)
    ensures
        match read_field(buf@, pos as nat, kind) {
            Some((_, p)) => r matches Some(q) && q == p,
            None => r is None,
        },
{
    match kind {
        FieldKind::One(s) => scalar_end(buf, pos, s),
        FieldKind::Counted(s) => {
            if !varint_readable_at(buf, pos) {
                return None;
            }
            proof {
                lemma_encoded_len(buf@.skip(pos as int));
            }
            let (count, n) = VarInt::from_vec(buf, pos);
            assert(n <= buf.len() - pos);
            if count.0 < 0 {
                return None;
            }
            let p0 = pos + n;
            let total = count.0 as usize;
            let mut p = p0;
            let mut i: usize = 0;
            assert(read_varint(buf@, pos as nat) == Some((count.0, p0 as nat)));
            while i < total
                invariant
                    kind == FieldKind::Counted(s),
                    read_varint(buf@, pos as nat) == Some((count.0, p0 as nat)),
                    i <= total,
                    total == count.0,
                    read_repeated(buf@, p0 as nat, s, i as nat) matches Some((_, q)) && q == p,
                decreases total - i,
            {
                match scalar_end(buf, p, s) {
                    Some(q) => {
                        p = q;
                    },
                    None => {
                        proof {
                            lemma_repeated_stops(buf@, p0 as nat, s, i as nat, total as nat);
                        }
                        return None;
                    },
                }
                i += 1;
            }
            Some(p)
        },
    }
}

/// When one entry of a layout cannot be read, neither can the whole layout.
proof fn lemma_prefix_stops(buf: Seq<u8>, start: nat, layout: Seq<FieldKind>, k: nat, n: nat)
    requires
        k < n,
        read_prefix(buf, start, layout, k) matches Some((_, p)) && read_field(buf, p, layout[k as int]) is None,
    ensures
        read_prefix(buf, start, layout, n) is None,
{
    reveal(read_prefix);
    if read_prefix(buf, start, layout, n) is Some {
        lemma_prefix_shorter(buf, start, layout, k + 1, n);
    }
}

/// Whether all of `layout` can be read from just after the packet's ID.
fn layout_readable(buf: &Vec<u8>, layout: &Vec<FieldKind>) -> (b: bool)
    requires
        buf@.len() >= 1,
    ensures
        b == (read_layout(buf@, layout@) is Some),
{
    proof {
        lemma_prefix_start(buf@, 1, layout@);
    }
    let mut p: usize = 1;
    let mut i: usize = 0;
    while i < layout.len()
        invariant
            i <= layout@.len(),
            read_prefix(buf@, 1, layout@, i as nat) matches Some((_, q)) && q == p,
        decreases layout.len() - i,
    {
        match field_end(buf, p, layout[i]) {
            Some(q) => {
                proof {
                    reveal(read_prefix);
                }
                p = q;
            },
            None => {
                proof {
                    lemma_prefix_stops(buf@, 1, layout@, i as nat, layout@.len());
                }
                return false;
            },
        }
        i += 1;
    }
    true
}

/// The fields of a packet, as a vector.
fn layout_vec(kind: PacketKind) -> (v: Vec<FieldKind>)
    ensures
        v@ == layout(kind),
{
    let v = match kind {
        PacketKind::Status => vec![FieldKind::One(Scalar::Str)],
        PacketKind::Disconnect => vec![FieldKind::One(Scalar::Str)],
        PacketKind::SpawnEntity => vec![FieldKind::One(Scalar::VarInt), FieldKind::One(Scalar::Uuid), FieldKind::One(Scalar::VarInt), FieldKind::One(Scalar::Double), FieldKind::One(Scalar::Double), FieldKind::One(Scalar::Double), FieldKind::One(Scalar::UByte), FieldKind::One(Scalar::UByte), FieldKind::One(Scalar::Int), FieldKind::One(Scalar::Short), FieldKind::One(Scalar::Short), FieldKind::One(Scalar::Short)],
        PacketKind::LoginSuccess => Vec::new(),
        PacketKind::SpawnLivingEntity => vec![FieldKind::One(Scalar::VarInt), FieldKind::One(Scalar::Uuid), FieldKind::One(Scalar::VarInt), FieldKind::One(Scalar::Double), FieldKind::One(Scalar::Double), FieldKind::One(Scalar::Double), FieldKind::One(Scalar::UByte), FieldKind::One(Scalar::UByte), FieldKind::One(Scalar::UByte), FieldKind::One(Scalar::Short), FieldKind::One(Scalar::Short), FieldKind::One(Scalar::Short)],
        PacketKind::SetCompression => vec![FieldKind::One(Scalar::VarInt)],
        PacketKind::BlockChange => vec![FieldKind::One(Scalar::Position), FieldKind::One(Scalar::VarInt)],
        PacketKind::ServerDifficulty => vec![FieldKind::One(Scalar::UByte), FieldKind::One(Scalar::Bool)],
        PacketKind::ChatIncoming => vec![FieldKind::One(Scalar::Str), FieldKind::One(Scalar::Byte), FieldKind::One(Scalar::Uuid)],
        PacketKind::KeepAliveClientbound => vec![FieldKind::One(Scalar::Long)],
        PacketKind::ChunkData => vec![FieldKind::One(Scalar::Int), FieldKind::One(Scalar::Int), FieldKind::Counted(Scalar::Long), FieldKind::One(Scalar::Nbt), FieldKind::Counted(Scalar::VarInt), FieldKind::Counted(Scalar::Byte), FieldKind::Counted(Scalar::Nbt)],
        PacketKind::JoinGame => vec![FieldKind::One(Scalar::Int), FieldKind::One(Scalar::Bool), FieldKind::One(Scalar::UByte), FieldKind::One(Scalar::Byte), FieldKind::Counted(Scalar::Str), FieldKind::One(Scalar::Nbt), FieldKind::One(Scalar::Nbt), FieldKind::One(Scalar::Str), FieldKind::One(Scalar::Long), FieldKind::One(Scalar::VarInt), FieldKind::One(Scalar::VarInt), FieldKind::One(Scalar::Bool), FieldKind::One(Scalar::Bool), FieldKind::One(Scalar::Bool), FieldKind::One(Scalar::Bool)],
        PacketKind::EntityPosition => vec![FieldKind::One(Scalar::VarInt), FieldKind::One(Scalar::Short), FieldKind::One(Scalar::Short), FieldKind::One(Scalar::Short), FieldKind::One(Scalar::Bool)],
        PacketKind::EntityPositionAndRotation => vec![FieldKind::One(Scalar::VarInt), FieldKind::One(Scalar::Short), FieldKind::One(Scalar::Short), FieldKind::One(Scalar::Short), FieldKind::One(Scalar::UByte), FieldKind::One(Scalar::UByte), FieldKind::One(Scalar::Bool)],
        PacketKind::EntityRotation => vec![FieldKind::One(Scalar::VarInt), FieldKind::One(Scalar::UByte), FieldKind::One(Scalar::UByte), FieldKind::One(Scalar::Bool)],
        PacketKind::PlayerPositionAndLook => vec![FieldKind::One(Scalar::Double), FieldKind::One(Scalar::Double), FieldKind::One(Scalar::Double), FieldKind::One(Scalar::Float), FieldKind::One(Scalar::Float), FieldKind::One(Scalar::Byte), FieldKind::One(Scalar::VarInt), FieldKind::One(Scalar::Bool)],
        PacketKind::DestroyEntities => vec![FieldKind::Counted(Scalar::VarInt)],
        PacketKind::EntityHeadLook => vec![FieldKind::One(Scalar::VarInt), FieldKind::One(Scalar::UByte)],
        PacketKind::EntityMetadata => vec![FieldKind::One(Scalar::VarInt)],
        PacketKind::EntityVelocity => vec![FieldKind::One(Scalar::VarInt), FieldKind::One(Scalar::Short), FieldKind::One(Scalar::Short), FieldKind::One(Scalar::Short)],
        PacketKind::UpdateHealth => vec![FieldKind::One(Scalar::Float), FieldKind::One(Scalar::VarInt), FieldKind::One(Scalar::Float)],
        PacketKind::TimeUpdate => vec![FieldKind::One(Scalar::Long), FieldKind::One(Scalar::Long)],
        PacketKind::SoundEffect => Vec::new(),
        PacketKind::EntityTeleport => vec![FieldKind::One(Scalar::VarInt), FieldKind::One(Scalar::Double), FieldKind::One(Scalar::Double), FieldKind::One(Scalar::Double), FieldKind::One(Scalar::UByte), FieldKind::One(Scalar::UByte), FieldKind::One(Scalar::Bool)],
    };
    assert(v@ =~= layout(kind));
    v
}

/// Whether `decode_packet` can read `packet` in `state` without failing.
pub fn is_decodable(packet: &Vec<u8>, state: &ServerState) -> (b: bool)
    ensures
        b == decodable(packet@, *state),
{
    if packet.len() == 0 {
        return true;
    }
    match kind_of(packet[0], state) {
        Some(k) => layout_readable(packet, &layout_vec(k)),
        None => true,
    }
}

/// Decodes a packet when it can be read to its end, and gives `None` when a field is
/// missing or invalid.
pub fn try_decode_packet(packet: Vec<u8>, state: &ServerState) -> (out: Option<DecodedPacket>)
    ensures
        out is Some <==> decodable(packet@, *state),
        out matches Some(p) ==> decoded_as(packet@, *state, p),
{
    if is_decodable(&packet, state) {
        Some(decode_packet(packet, state))
    } else {
        None
    }
}

/// The IDs of the packets decoded while playing: `0x00` spawns an entity, `0x02` a living
/// entity, `0x0c` changes a block, `0x0e` sets the difficulty, `0x0f` carries chat,
/// `0x1a` disconnects, `0x21` asks for a keep-alive, `0x22` carries a chunk, `0x26` joins
/// the game, `0x29`, `0x2a` and `0x2b` move and turn an entity, `0x38` places the player,
/// `0x3a` destroys entities, `0x3e` turns an entity's head, `0x4d` carries entity
/// metadata, `0x4f` sets an entity's velocity, `0x52` the player's health, `0x58` the
/// time, `0x5c` plays a sound, `0x61` teleports an entity; any other packet is kept
/// whole as unknown.
pub proof fn law_play_packet_ids(buf: Seq<u8>, out: DecodedPacket)
    requires
        buf.len() > 0,
        decoded_as(buf, ServerState::Play, out),
    ensures
        buf[0] == 0x00 ==> out is SpawnEntity,
        buf[0] == 0x02 ==> out is SpawnLivingEntity,
        buf[0] == 0x0c ==> out is BlockChange,
        buf[0] == 0x0e ==> out is ServerDifficulty,
        buf[0] == 0x0f ==> out is ChatIncoming,
        buf[0] == 0x1a ==> out is Disconnect,
        buf[0] == 0x21 ==> out is KeepAliveClientbound,
        buf[0] == 0x22 ==> out is ChunkData,
        buf[0] == 0x26 ==> out is JoinGame,
        buf[0] == 0x29 ==> out is EntityPosition,
        buf[0] == 0x2a ==> out is EntityPositionAndRotation,
        buf[0] == 0x2b ==> out is EntityRotation,
        buf[0] == 0x38 ==> out is PlayerPositionAndLook,
        buf[0] == 0x3a ==> out is DestroyEntities,
        buf[0] == 0x3e ==> out is EntityHeadLook,
        buf[0] == 0x4d ==> out is EntityMetadata,
        buf[0] == 0x4f ==> out is EntityVelocity,
        buf[0] == 0x52 ==> out is UpdateHealth,
        buf[0] == 0x58 ==> out is TimeUpdate,
        buf[0] == 0x5c ==> out is SoundEffect,
        buf[0] == 0x61 ==> out is EntityTeleport,
        out is Unknown <==> !(buf[0] == 0x00 || buf[0] == 0x02 || buf[0] == 0x0c || buf[0] == 0x0e
            || buf[0] == 0x0f || buf[0] == 0x1a || buf[0] == 0x21 || buf[0] == 0x22 || buf[0]
            == 0x26 || buf[0] == 0x29 || buf[0] == 0x2a || buf[0] == 0x2b || buf[0] == 0x38
            || buf[0] == 0x3a || buf[0] == 0x3e || buf[0] == 0x4d || buf[0] == 0x4f || buf[0]
            == 0x52 || buf[0] == 0x58 || buf[0] == 0x5c || buf[0] == 0x61),
        out is Unknown ==> out->Unknown_0@ == buf,
{
}

/// The IDs of the packets decoded while logging in: `0x00` refuses the login, `0x02`
/// accepts it, `0x03` sets the compression threshold; the IDs shared with play keep their
/// meaning, and any other packet is kept whole as unknown.
pub proof fn law_login_packet_ids(buf: Seq<u8>, out: DecodedPacket)
    requires
        buf.len() > 0,
        decoded_as(buf, ServerState::Login, out),
    ensures
        buf[0] == 0x00 ==> out is Disconnect,
        buf[0] == 0x02 ==> out is LoginSuccess,
        buf[0] == 0x03 ==> out is SetCompression,
        buf[0] == 0x01 || buf[0] == 0x04 ==> out is Unknown,
{
}

/// While asking for the status, `0x00` is the server's status and `0x01`, `0x02` and
/// `0x03` are not decoded.
pub proof fn law_status_packet_ids(buf: Seq<u8>, out: DecodedPacket)
    requires
        buf.len() > 0,
        decoded_as(buf, ServerState::Status, out),
    ensures
        buf[0] == 0x00 ==> out is Status,
        buf[0] == 0x01 || buf[0] == 0x02 || buf[0] == 0x03 ==> out is Unknown,
{
}

} // verus!
