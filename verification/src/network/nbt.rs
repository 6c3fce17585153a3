//! Named Binary Tag (NBT) compounds embedded in packets, read with `quartz_nbt`, and the
//! check of their layout that comes before the read.
use vstd::prelude::*;

use crate::network::fixed::{be_value, u16_from_be, u32_from_be};

verus! {

#[verifier::external_type_specification]
#[verifier::external_body]
pub struct ExNbtCompound(quartz_nbt::NbtCompound);

/// An NBT compound carried by a packet.
#[derive(Debug)]
pub struct NBTTag(pub quartz_nbt::NbtCompound);

/// How deeply compounds and lists may nest, the root compound included.
pub const NBT_MAX_DEPTH: u32 = 512;

/// Whether `n` bytes from `pos` lie within `b`.
pub open spec fn nbt_fits(b: Seq<u8>, pos: int, n: int) -> bool {
    0 <= pos && 0 <= n && pos + n <= b.len()
}

/// The big-endian number in the `n` bytes at `pos`.
pub open spec fn nbt_number_at(b: Seq<u8>, pos: int, n: int) -> nat {
    be_value(b.subrange(pos, pos + n))
}

/// The end of `n` fixed bytes at `pos`, if they are all there.
pub open spec fn nbt_fixed_end(b: Seq<u8>, pos: int, n: int) -> Option<int> {
    if nbt_fits(b, pos, n) {
        Some(pos + n)
    } else {
        None
    }
}

/// The end of an array of `size`-byte items at `pos`: a 32-bit signed count, then the
/// items. `None` when the count is negative or the items are not all there.
pub open spec fn nbt_array_end(b: Seq<u8>, pos: int, size: int) -> Option<int> {
    if nbt_fits(b, pos, 4) && nbt_number_at(b, pos, 4) < 0x8000_0000 && nbt_fits(
        b,
        pos + 4,
        nbt_number_at(b, pos, 4) * size,
    ) {
        Some(pos + 4 + nbt_number_at(b, pos, 4) * size)
    } else {
        None
    }
}

/// The end of a string at `pos`: an unsigned 16-bit length, then that many bytes.
pub open spec fn nbt_string_end(b: Seq<u8>, pos: int) -> Option<int> {
    if nbt_fits(b, pos, 2) && nbt_fits(b, pos + 2, nbt_number_at(b, pos, 2) as int) {
        Some(pos + 2 + nbt_number_at(b, pos, 2))
    } else {
        None
    }
}

/// The end of the payload of a tag of type `tag` at `pos`, where `depth` more levels of
/// compounds and lists may open. `None` when the payload is not all there, a count is
/// negative, a tag type is unknown, a list of end tags is not empty, or the nesting goes
/// deeper.
pub open spec fn nbt_payload_end(b: Seq<u8>, pos: int, tag: u8, depth: nat) -> Option<int>
    decreases depth, 0int, 0int,
{
    if tag == 1 {
        nbt_fixed_end(b, pos, 1)
    } else if tag == 2 {
        nbt_fixed_end(b, pos, 2)
    } else if tag == 3 || tag == 5 {
        nbt_fixed_end(b, pos, 4)
    } else if tag == 4 || tag == 6 {
        nbt_fixed_end(b, pos, 8)
    } else if tag == 7 {
        nbt_array_end(b, pos, 1)
    } else if tag == 8 {
        nbt_string_end(b, pos)
    } else if tag == 9 {
        if depth == 0 || !nbt_fits(b, pos, 5) {
            None
        } else {
            let et = b[pos];
            let n = nbt_number_at(b, pos + 1, 4);
            if n >= 0x8000_0000 || et > 12 || (et == 0 && n > 0) {
                None
            } else {
                nbt_list_end(b, pos + 5, et, n, (depth - 1) as nat)
            }
        }
    } else if tag == 10 {
        if depth == 0 {
            None
        } else {
            nbt_entries_end(b, pos, (depth - 1) as nat)
        }
    } else if tag == 11 {
        nbt_array_end(b, pos, 4)
    } else if tag == 12 {
        nbt_array_end(b, pos, 8)
    } else {
        None
    }
}

/// The end of `n` payloads of type `tag`, one after the other from `pos`.
pub open spec fn nbt_list_end(b: Seq<u8>, pos: int, tag: u8, n: nat, depth: nat) -> Option<int>
    decreases depth, 1int, n,
{
    if n == 0 {
        Some(pos)
    } else {
        match nbt_payload_end(b, pos, tag, depth) {
            Some(p) => nbt_list_end(b, p, tag, (n - 1) as nat, depth),
            None => None,
        }
    }
}

/// The end of a compound's entries from `pos`: each a tag type, a name and a payload,
/// until an end tag.
pub open spec fn nbt_entries_end(b: Seq<u8>, pos: int, depth: nat) -> Option<int>
    decreases depth, 1int, b.len() - pos,
{
    if !(0 <= pos < b.len()) {
        None
    } else if b[pos] == 0 {
        Some(pos + 1)
    } else {
        match nbt_string_end(b, pos + 1) {
            Some(p) => match nbt_payload_end(b, p, b[pos], depth) {
                Some(q) => if pos < q <= b.len() {
                    nbt_entries_end(b, q, depth)
                } else {
                    None
                },
                None => None,
            },
            None => None,
        }
    }
}

/// The end of a named root compound at `pos` whose every part lies within `b`, with no
/// negative count and nested at most `NBT_MAX_DEPTH` deep; `None` for any other bytes.
pub open spec fn nbt_root_end(b: Seq<u8>, pos: int) -> Option<int> {
    if nbt_fits(b, pos, 1) && b[pos] == 10 {
        match nbt_string_end(b, pos + 1) {
            Some(p) => nbt_payload_end(b, p, 10, NBT_MAX_DEPTH as nat),
            None => None,
        }
    } else {
        None
    }
}

/// The number in the `n` (2 or 4) bytes at `pos`.
fn number_at(b: &Vec<u8>, pos: usize, n: usize) -> (v: u32)
    requires
        n == 2 || n == 4,
        pos + n <= b@.len(),
    ensures
        v as nat == nbt_number_at(b@, pos as int, n as int),
{
    assert(b@.len() == b.len());
    if n == 2 {
        let arr: [u8; 2] = [b[pos], b[pos + 1]];
        assert(arr@ =~= b@.subrange(pos as int, pos + 2));
        u16_from_be(&arr) as u32
    } else {
        let arr: [u8; 4] = [b[pos], b[pos + 1], b[pos + 2], b[pos + 3]];
        assert(arr@ =~= b@.subrange(pos as int, pos + 4));
        u32_from_be(&arr)
    }
}

/// The end of `n` fixed bytes at `pos`.
fn fixed_end(b: &Vec<u8>, pos: usize, n: usize) -> (r: Option<usize>)
    requires
        pos <= b@.len(),
        n <= 8,
    ensures
        r matches Some(q) ==> pos <= q <= b@.len(),
        match r {
            Some(q) => nbt_fixed_end(b@, pos as int, n as int) == Some(q as int),
            None => nbt_fixed_end(b@, pos as int, n as int) is None,
        },
{
    if b.len() - pos >= n {
        Some(pos + n)
    } else {
        None
    }
}

/// The end of an array of `size`-byte items at `pos`.
fn array_end(b: &Vec<u8>, pos: usize, size: usize) -> (r: Option<usize>)
    requires
        pos <= b@.len(),
        size == 1 || size == 4 || size == 8,
    ensures
        r matches Some(q) ==> pos <= q <= b@.len(),
        match r {
            Some(q) => nbt_array_end(b@, pos as int, size as int) == Some(q as int),
            None => nbt_array_end(b@, pos as int, size as int) is None,
        },
{
    if b.len() - pos < 4 {
        return None;
    }
    let count = number_at(b, pos, 4);
    if count >= 0x8000_0000 {
        return None;
    }
    let room = b.len() - pos - 4;
    if count as usize > room / size {
        proof {
            assert((count as int) * (size as int) > room) by (nonlinear_arith)
                requires
                    count as int > room as int / size as int,
                    size > 0,
            ;
        }
        return None;
    }
    proof {
        assert((count as int) * (size as int) <= room) by (nonlinear_arith)
            requires
                count as int <= room as int / size as int,
                size > 0,
                room >= 0,
        ;
    }
    Some(pos + 4 + count as usize * size)
}

/// The end of a string at `pos`.
fn string_end(b: &Vec<u8>, pos: usize) -> (r: Option<usize>)
    requires
        pos <= b@.len(),
    ensures
        r matches Some(q) ==> pos <= q <= b@.len(),
        match r {
            Some(q) => nbt_string_end(b@, pos as int) == Some(q as int),
            None => nbt_string_end(b@, pos as int) is None,
        },
{
    if b.len() - pos < 2 {
        return None;
    }
    let n = number_at(b, pos, 2) as usize;
    if b.len() - pos - 2 < n {
        return None;
    }
    Some(pos + 2 + n)
}

/// The end of the payload of a tag of type `tag` at `pos`, within `depth` levels.
fn payload_end(b: &Vec<u8>, pos: usize, tag: u8, depth: u32) -> (r: Option<usize>)
    requires
        pos <= b@.len(),
    ensures
        r matches Some(q) ==> pos <= q <= b@.len(),
        match r {
            Some(q) => nbt_payload_end(b@, pos as int, tag, depth as nat) == Some(q as int),
            None => nbt_payload_end(b@, pos as int, tag, depth as nat) is None,
        },
    decreases depth,
{
    if tag == 1 {
        fixed_end(b, pos, 1)
    } else if tag == 2 {
        fixed_end(b, pos, 2)
    } else if tag == 3 || tag == 5 {
        fixed_end(b, pos, 4)
    } else if tag == 4 || tag == 6 {
        fixed_end(b, pos, 8)
    } else if tag == 7 {
        array_end(b, pos, 1)
    } else if tag == 8 {
        string_end(b, pos)
    } else if tag == 9 {
        if depth == 0 || b.len() - pos < 5 {
            return None;
        }
        let et = b[pos];
        let n = number_at(b, pos + 1, 4);
        if n >= 0x8000_0000 || et > 12 || (et == 0 && n > 0) {
            return None;
        }
        let ghost d = (depth - 1) as nat;
        let ghost whole = nbt_list_end(b@, pos + 5, et, n as nat, d);
        assert(nbt_payload_end(b@, pos as int, tag, depth as nat) == whole);
        let mut p: usize = pos + 5;
        let mut i: u32 = 0;
        while i < n
            invariant
                nbt_payload_end(b@, pos as int, tag, depth as nat) == whole,
                pos + 5 <= p <= b@.len(),
                i <= n,
                depth > 0,
                d == depth - 1,
                whole == nbt_list_end(b@, pos + 5, et, n as nat, d),
                whole == nbt_list_end(b@, p as int, et, (n - i) as nat, d),
            decreases n - i,
        {
            match payload_end(b, p, et, depth - 1) {
                Some(q) => {
                    p = q;
                },
                None => {
                    return None;
                },
            }
            i += 1;
        }
        Some(p)
    } else if tag == 10 {
        if depth == 0 {
            return None;
        }
        let ghost d = (depth - 1) as nat;
        let ghost whole = nbt_entries_end(b@, pos as int, d);
        assert(nbt_payload_end(b@, pos as int, tag, depth as nat) == whole);
        let mut p: usize = pos;
        loop
            invariant
                nbt_payload_end(b@, pos as int, tag, depth as nat) == whole,
                pos <= p <= b@.len(),
                depth > 0,
                d == depth - 1,
                whole == nbt_entries_end(b@, pos as int, d),
                whole == nbt_entries_end(b@, p as int, d),
            decreases b@.len() - p,
        {
            if p >= b.len() {
                return None;
            }
            let t = b[p];
            if t == 0 {
                return Some(p + 1);
            }
            let s = match string_end(b, p + 1) {
                Some(s) => s,
                None => {
                    return None;
                },
            };
            let q = match payload_end(b, s, t, depth - 1) {
                Some(q) => q,
                None => {
                    return None;
                },
            };
            if q <= p {
                return None;
            }
            p = q;
        }
    } else if tag == 11 {
        array_end(b, pos, 4)
    } else if tag == 12 {
        array_end(b, pos, 8)
    } else {
        None
    }
}

/// Checks the layout of the named root compound at `pos`: it gives where the compound
/// ends when every part of it lies within `b`, no count is negative and the nesting stays
/// within `NBT_MAX_DEPTH`, and `None` otherwise.
pub fn nbt_scan(b: &Vec<u8>, pos: usize) -> (r: Option<usize>)
    ensures
        r matches Some(q) ==> pos <= q <= b@.len(),
        match r {
            Some(q) => nbt_root_end(b@, pos as int) == Some(q as int),
            None => nbt_root_end(b@, pos as int) is None,
        },
{
    if pos >= b.len() || b[pos] != 10 {
        return None;
    }
    match string_end(b, pos + 1) {
        Some(p) => payload_end(b, p, 10, NBT_MAX_DEPTH),
        None => None,
    }
}

/// What `quartz_nbt` reads from the uncompressed, named root compound at the start of
/// `bytes`: how many bytes it takes, and the long array tags of the compound, by name.
/// `None` where it reports an error.
pub uninterp spec fn nbt_read(bytes: Seq<u8>) -> Option<(nat, Map<Seq<char>, Seq<i64>>)>;

/// The number of bytes that the root compound at the start of `bytes` takes.
pub open spec fn nbt_compound_len(bytes: Seq<u8>) -> Option<nat> {
    match nbt_read(bytes) {
        Some((n, _)) => Some(n),
        None => None,
    }
}

/// The long array tags of a compound, by name: the entries of the compound whose tag is
/// an `NbtTag::LongArray`, each with the array it holds.
pub uninterp spec fn nbt_long_arrays(compound: quartz_nbt::NbtCompound) -> Map<Seq<char>, Seq<i64>>;

/// Reads the uncompressed root compound that starts at `start` in `buf` with
/// `quartz_nbt::io::read_nbt`, through a `Cursor` set to `start`, and returns it with the
/// cursor's position after the read. The reader takes each count it meets as a length
/// and allocates that much before reading, and recurses into nested compounds and lists;
/// so the bytes must first pass `nbt_scan`, under which no count is negative, everything
/// counted lies within `buf`, and nesting is bounded. The read goes forward through the
/// bytes from `start` and depends on nothing else, so what it gives, or whether it
/// fails, is a function of those bytes.
#[verifier::external_body]
pub(crate) fn read_compound_at(buf: &Vec<u8>, start: usize) -> (res: Option<
    (quartz_nbt::NbtCompound, usize),
>)
    requires
        nbt_root_end(buf@, start as int) is Some,
    ensures
        match res {
            Some((compound, end)) => start <= end <= buf@.len() && nbt_read(buf@.skip(start as int))
                == Some(((end - start) as nat, nbt_long_arrays(compound))),
            None => nbt_read(buf@.skip(start as int)) is None,
        },
{
    let mut cursor = std::io::Cursor::new(buf);
    cursor.set_position(start as u64);
    match quartz_nbt::io::read_nbt(&mut cursor, quartz_nbt::io::Flavor::Uncompressed) {
        Ok((compound, _name)) => Some((compound, cursor.position() as usize)),
        Err(_) => None,
    }
}

/// Looks up the tag named `key` in `compound` with `NbtCompound::get`, asking for a
/// `&Vec<i64>`, and returns a copy of it. `get` finds the tag by its name and converts
/// it with `TryFrom<&NbtTag>`, which succeeds exactly on an `NbtTag::LongArray`; so the
/// result is the long array of that name, or `None` when the compound has no long array
/// of that name.
#[verifier::external_body]
pub(crate) fn long_array_named(compound: &quartz_nbt::NbtCompound, key: &str) -> (res: Option<Vec<i64>>)
    ensures
        match res {
            Some(list) => nbt_long_arrays(*compound).contains_key(key@) && list@
                == nbt_long_arrays(*compound)[key@],
            None => !nbt_long_arrays(*compound).contains_key(key@),
        },
{
    match compound.get::<_, &Vec<i64>>(key) {
        Ok(list) => Some(list.clone()),
        Err(_) => None,
    }
}

} // verus!
