//! Chunk columns: sixteen sections of 16x16x16 block states and a heightmap, decoded from
//! a `ChunkData` packet.
use vstd::prelude::*;

use crate::network::decode::{
    field_end, lemma_repeated_shorter, read_field, read_repeated, FieldKind, FieldValue, Scalar,
};
use crate::network::messages::ChunkData;
use crate::network::nbt::{long_array_named, nbt_long_arrays};
use crate::network::packets::{read_be, read_u8, read_varint, varint_readable, PacketDecoder};
use crate::network::types::{Byte, Long};
use crate::resources::BlockState;
use vstd::arithmetic::power2::pow2;
use vstd::bits::{
    lemma_u64_low_bits_mask_is_mod, lemma_u64_pow2_no_overflow, lemma_u64_shl_is_mul,
    lemma_u64_shr_is_div, low_bits_mask,
};

verus! {

/// The number of bits of a block state id when no palette is used.
pub const MAX_BITS_PER_BLOCK: u64 = 15;

/// One 16x16x16 section of a chunk: the block state ids, indexed by
/// `y * 256 + z * 16 + x` in section coordinates.
#[derive(Debug, Clone, Copy)]
pub struct ChunkSection {
    pub y: i32,
    pub blocks: [u16; 4096],
}

/// A chunk column: its position in chunk coordinates, the height of its highest motion
/// blocking block at each of its 256 columns, and its sixteen sections from the bottom up.
#[derive(Clone, Copy)]
pub struct Chunk {
    x: i32,
    z: i32,
    heightmap: [u16; 256],
    sections: [Option<ChunkSection>; 16],
}

/// Each present section of `sections` is numbered by its place: section `k` has `y == k`.
pub open spec fn sections_numbered(sections: Seq<Option<ChunkSection>>) -> bool {
    forall|k: int| 0 <= k < sections.len() && (#[trigger] sections[k]) is Some ==> sections[k].unwrap().y == k
}

/// The block state ids of a section.
pub open spec fn section_view(s: Option<ChunkSection>) -> Option<Seq<u16>> {
    match s {
        Some(cs) => Some(cs.blocks@),
        None => None,
    }
}

impl Chunk {
    /// The chunk's x coordinate, in chunks.
    pub closed spec fn spec_x(&self) -> i32 {
        self.x
    }

    /// The chunk's z coordinate, in chunks.
    pub closed spec fn spec_z(&self) -> i32 {
        self.z
    }

    /// The heights of the chunk's 256 columns, indexed by `z * 16 + x`.
    pub closed spec fn heights(&self) -> Seq<u16> {
        self.heightmap@
    }

    /// The block state ids of each of the sixteen sections, or `None` for an empty one.
    pub closed spec fn section_blocks(&self) -> Seq<Option<Seq<u16>>> {
        self.sections@.map_values(|s: Option<ChunkSection>| section_view(s))
    }

    /// The chunk's x coordinate, in chunks.
    pub fn get_x(&self) -> (x: i32)
        ensures
            x == self.spec_x(),
    {
        self.x
    }

    /// The chunk's z coordinate, in chunks.
    pub fn get_z(&self) -> (z: i32)
        ensures
            z == self.spec_z(),
    {
        self.z
    }

    /// The chunk's x and z coordinates, in chunks.
    pub fn get_coords(&self) -> (c: (i32, i32))
        ensures
            c == (self.spec_x(), self.spec_z()),
    {
        (self.x, self.z)
    }

    /// The height of the highest motion blocking block in the column at `coords` (x, z)
    /// within the chunk.
    pub fn get_highest_block(&self, coords: (i32, i32)) -> (h: i32)
        requires
            0 <= coords.0 < 16,
            0 <= coords.1 < 16,
        ensures
            h == self.heights()[coords.1 * 16 + coords.0],
    {
        self.heightmap[coords.1 as usize * 16 + coords.0 as usize] as i32
    }

    /// The block state id at `pos` (x, y, z) within the chunk; `0`, air, outside the
    /// chunk or in an empty section.
    pub fn block_id_at(&self, pos: (i32, i32, i32)) -> (id: u16)
        ensures
            id == block_id_in(self.section_blocks(), pos.0 as int, pos.1 as int, pos.2 as int),
    {
        if pos.0 < 0 || pos.1 < 0 || pos.2 < 0 || pos.1 >= 256 || pos.0 >= 16 || pos.2 >= 16 {
            return 0;
        }
        let x = pos.0 as usize;
        let y = pos.1 as usize;
        let z = pos.2 as usize;
        match &self.sections[y / 16] {
            Some(cs) => cs.blocks[(y % 16) * 256 + z * 16 + x],
            None => 0,
        }
    }

    /// The block state at `pos` (x, y, z) within the chunk, looked up by its id in the
    /// table `blocks`; air, the first entry, outside the chunk or in an empty section.
    pub fn block_at<'a>(&self, pos: (i32, i32, i32), blocks: &'a Vec<BlockState>) -> (b:
        &'a BlockState)
        requires
            (block_id_in(self.section_blocks(), pos.0 as int, pos.1 as int, pos.2 as int) as int)
                < blocks@.len(),
        ensures
            *b == blocks@[block_id_in(
                self.section_blocks(),
                pos.0 as int,
                pos.1 as int,
                pos.2 as int,
            ) as int],
    {
        let id = self.block_id_at(pos);
        &blocks[id as usize]
    }

    /// Puts block state `id` at `pos` (x, y, z) within the chunk. An empty section gets
    /// created, full of air, first.
    pub fn set_block(&mut self, pos: (i32, i32, i32), id: u16)
        requires
            0 <= pos.0 < 16,
            0 <= pos.1 < 256,
            0 <= pos.2 < 16,
        ensures
            final(self).spec_x() == old(self).spec_x(),
            final(self).spec_z() == old(self).spec_z(),
            final(self).heights() == old(self).heights(),
            final(self).section_blocks() == with_block(
                old(self).section_blocks(),
                pos.0 as int,
                pos.1 as int,
                pos.2 as int,
                id,
            ),
    {
        let x = pos.0 as usize;
        let y = pos.1 as usize;
        let z = pos.2 as usize;
        let s = y / 16;
        let mut section = match self.sections[s] {
            Some(cs) => cs,
            None => ChunkSection { y: s as i32, blocks: [0u16; 4096] },
        };
        let ghost before = section.blocks@;
        section.blocks[(y % 16) * 256 + z * 16 + x] = id;
        self.sections[s] = Some(section);
        proof {
            assert(before == section_or_air(old(self).section_blocks()[s as int]));
            assert(section.blocks@ == before.update((y % 16) * 256 + z * 16 + x, id));
            assert(self.section_blocks() =~= with_block(
                old(self).section_blocks(),
                pos.0 as int,
                pos.1 as int,
                pos.2 as int,
                id,
            ));
        }
    }
}

impl Chunk {
    /// A chunk has sixteen sections, and each section that is there has 4096 blocks.
    pub proof fn lemma_shape(&self)
        ensures
            self.section_blocks().len() == 16,
            forall|i: int|
                0 <= i < 16 ==> (#[trigger] self.section_blocks()[i] matches Some(b) ==> b.len()
                    == 4096),
    {
    }
}

/// Whether each section that is there has 4096 blocks.
pub open spec fn sections_shaped(sections: Seq<Option<Seq<u16>>>) -> bool {
    &&& sections.len() == 16
    &&& forall|i: int| 0 <= i < 16 ==> (#[trigger] sections[i] matches Some(b) ==> b.len() == 4096)
}

/// Putting a block and reading it back gives the block; every other block of the chunk
/// reads as before.
pub proof fn law_block_read_back(
    sections: Seq<Option<Seq<u16>>>,
    x: int,
    y: int,
    z: int,
    id: u16,
    x2: int,
    y2: int,
    z2: int,
)
    requires
        sections_shaped(sections),
        0 <= x < 16,
        0 <= y < 256,
        0 <= z < 16,
    ensures
        block_id_in(with_block(sections, x, y, z, id), x, y, z) == id,
        (x2, y2, z2) != (x, y, z) ==> block_id_in(with_block(sections, x, y, z, id), x2, y2, z2)
            == block_id_in(sections, x2, y2, z2),
        sections_shaped(with_block(sections, x, y, z, id)),
{
    let after = with_block(sections, x, y, z, id);
    assert(sections[y / 16] matches Some(b) ==> b.len() == 4096);
    if (x2, y2, z2) != (x, y, z) && 0 <= x2 < 16 && 0 <= y2 < 256 && 0 <= z2 < 16 {
        if y2 / 16 == y / 16 {
            assert(index_in_section(x2, y2, z2) != index_in_section(x, y, z));
        }
    }
    assert forall|i: int| 0 <= i < 16 implies (#[trigger] after[i] matches Some(b) ==> b.len()
        == 4096) by {
        assert(sections[i] matches Some(b) ==> b.len() == 4096);
    }
}

/// The index of a block within its section.
pub open spec fn index_in_section(x: int, y: int, z: int) -> int {
    (y % 16) * 256 + z * 16 + x
}

/// The block state id at (x, y, z) of a chunk whose sections hold `sections`: air outside
/// the chunk and in empty sections.
pub open spec fn block_id_in(sections: Seq<Option<Seq<u16>>>, x: int, y: int, z: int) -> u16 {
    if 0 <= x < 16 && 0 <= y < 256 && 0 <= z < 16 {
        match sections[y / 16] {
            Some(blocks) => blocks[index_in_section(x, y, z)],
            None => 0,
        }
    } else {
        0
    }
}

/// A section's blocks, or a section full of air for an empty one.
pub open spec fn section_or_air(s: Option<Seq<u16>>) -> Seq<u16> {
    match s {
        Some(b) => b,
        None => Seq::new(4096, |i: int| 0u16),
    }
}

/// The sections after block state `id` was put at (x, y, z).
pub open spec fn with_block(sections: Seq<Option<Seq<u16>>>, x: int, y: int, z: int, id: u16) -> Seq<
    Option<Seq<u16>>,
> {
    sections.update(
        y / 16,
        Some(section_or_air(sections[y / 16]).update(index_in_section(x, y, z), id)),
    )
}

/// The number of bits per block of a section: at least four, and fifteen, the bits of a
/// global id, when the section sends nine or more.
pub open spec fn bits_per_block(raw: u8) -> u64 {
    if raw <= 4 {
        4
    } else if raw >= 9 {
        MAX_BITS_PER_BLOCK
    } else {
        raw as u64
    }
}

/// The integers among a list of field values.
pub open spec fn nums(vs: Seq<FieldValue>) -> Seq<int> {
    vs.map_values(
        |v: FieldValue|
            match v {
                FieldValue::Num(n) => n,
                _ => 0,
            },
    )
}

/// What a section's bytes hold: the bits per block, the palette when there is one, and
/// the longs the block indices are packed into.
pub struct SectionData {
    pub bits: u64,
    pub palette: Option<Seq<int>>,
    pub longs: Seq<u64>,
}

/// The section that starts at `pos`, and the position after it: a block count (not
/// used), the bits per block, a palette of `VarInt`s when fewer than nine bits are used,
/// and a counted array of longs.
pub open spec fn read_section(buf: Seq<u8>, pos: nat) -> Option<(SectionData, nat)> {
    match read_be(buf, pos, 2) {
        Some((_, p1)) => match read_u8(buf, p1) {
            Some((raw, p2)) => {
                let bits = bits_per_block(raw);
                let pal = if bits < 9 {
                    read_field(buf, p2, FieldKind::Counted(Scalar::VarInt))
                } else {
                    Some((FieldValue::Counted(0, Seq::empty()), p2))
                };
                match pal {
                    Some((FieldValue::Counted(_, pv), p3)) => match read_field(
                        buf,
                        p3,
                        FieldKind::Counted(Scalar::Long),
                    ) {
                        Some((FieldValue::Counted(_, lv), p4)) => Some(
                            (
                                SectionData {
                                    bits,
                                    palette: if bits < 9 {
                                        Some(nums(pv))
                                    } else {
                                        None
                                    },
                                    longs: nums(lv).map_values(|n: int| n as u64),
                                },
                                p4,
                            ),
                        ),
                        _ => None,
                    },
                    _ => None,
                }
            },
            None => None,
        },
        None => None,
    }
}

/// The mask of the low `bits` bits.
pub open spec fn low_mask(bits: u64) -> u64 {
    ((1u64 << bits) - 1) as u64
}

/// The `j`th packed index of a section: `bits` bits at a time, as many to a long as fit,
/// from the low bits up.
pub open spec fn packed_index(sd: SectionData, j: u64) -> u64 {
    let per_long = 64u64 / sd.bits;
    (sd.longs[(j / per_long) as int] >> (((j % per_long) * sd.bits) as u64)) & low_mask(sd.bits)
}

/// Whether every block of a section can be unpacked: the longs hold all 4096 indices, and
/// each index is within the palette when there is one.
pub open spec fn section_complete(sd: SectionData) -> bool {
    &&& 4 <= sd.bits <= 15
    &&& 4095u64 / (64u64 / sd.bits) < sd.longs.len()
    &&& forall|j: u64| #![trigger packed_index(sd, j)]
        0 <= j < 4096 ==> (sd.palette matches Some(p) ==> packed_index(sd, j) < p.len())
}

/// The block state id of block `j` of a section: its packed index looked up in the
/// palette, or the index itself when there is none.
pub open spec fn section_block(sd: SectionData, j: u64) -> u16 {
    match sd.palette {
        Some(p) => p[packed_index(sd, j) as int] as u16,
        None => packed_index(sd, j) as u16,
    }
}

/// Whether the section at index `i` is sent, by bit `i` of the mask.
pub open spec fn section_present(mask: i64, i: int) -> bool {
    mask & (1i64 << (i as i64)) != 0
}

/// The first `k` sections of a chunk from its data, and the position after them: the
/// sections whose bit is set are read in order, the others are empty.
pub open spec fn read_sections(buf: Seq<u8>, mask: i64, k: nat) -> Option<
    (Seq<Option<Seq<u16>>>, nat),
>
    decreases k,
{
    if k == 0 {
        Some((Seq::empty(), 0))
    } else {
        match read_sections(buf, mask, (k - 1) as nat) {
            Some((ss, p)) => if section_present(mask, k - 1) {
                match read_section(buf, p) {
                    Some((sd, q)) => if section_complete(sd) {
                        Some((ss.push(Some(Seq::new(4096, |j: int| section_block(sd, j as u64)))), q))
                    } else {
                        None
                    },
                    None => None,
                }
            } else {
                Some((ss.push(None), p))
            },
            None => None,
        }
    }
}

/// The height of column `i` in a packed heightmap: nine bits each, seven to a long, from
/// the low bits up.
pub open spec fn height_entry(list: Seq<i64>, i: int) -> u16 {
    ((list[i / 7] >> (((i % 7) * 9) as i64)) & 0x1ff) as u16
}

/// Unpacks the heights of a chunk's 256 columns.
pub fn process_heightmap(list: &Vec<i64>) -> (map: [u16; 256])
    requires
        list@.len() >= 37,
    ensures
        forall|i: int| 0 <= i < 256 ==> map@[i] == height_entry(list@, i),
{
    let mut map = [0u16; 256];
    let vals_per_long: usize = 7;
    for i in 0..256usize
        invariant
            list@.len() >= 37,
            vals_per_long == 7,
            forall|k: int| 0 <= k < i ==> map@[k] == height_entry(list@, k),
    {
        let long = i / vals_per_long;
        let offset = ((i % vals_per_long) * 9) as i64;
        map[i] = ((list[long] >> offset) & 0x1ff) as u16;
    }
    map
}

/// Reads a `VarInt` count and that many `VarInt`s.
fn read_counted_varints(pd: &mut PacketDecoder) -> (items: Vec<i32>)
    requires
        read_field(old(pd).buffer(), old(pd).index(), FieldKind::Counted(Scalar::VarInt)) is Some,
    ensures
        final(pd).buffer() == old(pd).buffer(),
        read_field(old(pd).buffer(), old(pd).index(), FieldKind::Counted(Scalar::VarInt)) matches Some(
            (FieldValue::Counted(_, vs), p),
        ) && p == final(pd).index() && nums(vs) == items@.map_values(|v: i32| v as int),
{
    let ghost buf = pd.buffer();
    let count = pd.next_varint();
    let ghost p0 = pd.index();
    let n = count.0 as usize;
    let mut items: Vec<i32> = Vec::new();
    for i in 0..n
        invariant
            pd.buffer() == buf,
            n == count.0,
            read_repeated(buf, p0, Scalar::VarInt, n as nat) is Some,
            read_repeated(buf, p0, Scalar::VarInt, i as nat) matches Some((vs, q)) && q
                == pd.index() && nums(vs) == items@.map_values(|v: i32| v as int),
    {
        proof {
            lemma_repeated_shorter(buf, p0, Scalar::VarInt, (i + 1) as nat, n as nat);
        }
        let ghost vs = read_repeated(buf, p0, Scalar::VarInt, i as nat).unwrap().0;
        let x = pd.next_varint();
        let ghost before = items@;
        items.push(x.0);
        proof {
            let lhs = nums(vs.push(FieldValue::Num(x.0 as int)));
            let rhs = items@.map_values(|v: i32| v as int);
            assert(items@ == before.push(x.0));
            assert(nums(vs) == before.map_values(|v: i32| v as int));
            assert(nums(vs).len() == vs.len());
            assert(vs.len() == before.len());
            assert(lhs.len() == rhs.len());
            assert forall|k: int| 0 <= k < lhs.len() implies lhs[k] == rhs[k] by {
                if k < before.len() {
                    assert(nums(vs)[k] == before.map_values(|v: i32| v as int)[k]);
                }
            }
            assert(lhs =~= rhs);
        }
    }
    items
}

/// Reads a `VarInt` count and that many longs, each taken as its 64 bits.
fn read_counted_longs(pd: &mut PacketDecoder) -> (items: Vec<u64>)
    requires
        read_field(old(pd).buffer(), old(pd).index(), FieldKind::Counted(Scalar::Long)) is Some,
    ensures
        final(pd).buffer() == old(pd).buffer(),
        read_field(old(pd).buffer(), old(pd).index(), FieldKind::Counted(Scalar::Long)) matches Some(
            (FieldValue::Counted(_, vs), p),
        ) && p == final(pd).index() && nums(vs).map_values(|n: int| n as u64) == items@,
{
    let ghost buf = pd.buffer();
    let count = pd.next_varint();
    let ghost p0 = pd.index();
    let n = count.0 as usize;
    let mut items: Vec<u64> = Vec::new();
    for i in 0..n
        invariant
            pd.buffer() == buf,
            n == count.0,
            read_repeated(buf, p0, Scalar::Long, n as nat) is Some,
            read_repeated(buf, p0, Scalar::Long, i as nat) matches Some((vs, q)) && q
                == pd.index() && nums(vs).map_values(|n: int| n as u64) == items@,
    {
        proof {
            lemma_repeated_shorter(buf, p0, Scalar::Long, (i + 1) as nat, n as nat);
        }
        let ghost vs = read_repeated(buf, p0, Scalar::Long, i as nat).unwrap().0;
        let x = pd.next_long();
        items.push(x.0 as u64);
        proof {
            assert(nums(vs.push(FieldValue::Num(x.0 as int))).map_values(|n: int| n as u64)
                =~= items@);
        }
    }
    items
}

/// Reading more sections of a chunk needs the fewer ones to be readable.
proof fn lemma_sections_shorter(buf: Seq<u8>, mask: i64, k: nat, n: nat)
    requires
        k <= n,
        read_sections(buf, mask, n) is Some,
    ensures
        read_sections(buf, mask, k) is Some,
    decreases n - k,
{
    if k < n {
        lemma_sections_shorter(buf, mask, k + 1, n);
    }
}

/// The mask of the low `j + 1` bits is that of the low `j` bits with bit `j` set.
proof fn lemma_low_mask_step(j: u64)
    requires
        j < 63,
    ensures
        low_mask(j) | (1u64 << j) == low_mask((j + 1) as u64),
{
    assert(((1u64 << j) - 1) as u64 | (1u64 << j) == ((1u64 << ((j + 1) as u64)) - 1) as u64)
        by (bit_vector)
        requires
            j < 63,
    ;
}

/// Reads one section and unpacks its 4096 block state ids.
fn read_one_section(pd: &mut PacketDecoder, y: usize) -> (cs: ChunkSection)
    requires
        y < 16,
        read_section(old(pd).buffer(), old(pd).index()) matches Some((sd, _)) && section_complete(
            sd,
        ),
    ensures
        final(pd).buffer() == old(pd).buffer(),
        read_section(old(pd).buffer(), old(pd).index()) matches Some((sd, p)) && p
            == final(pd).index() && cs.blocks@ == Seq::new(
            4096,
            |j: int| section_block(sd, j as u64),
        ),
        cs.y == y,
{
    let ghost buf = pd.buffer();
    let ghost sd = read_section(buf, pd.index()).unwrap().0;
    let _block_count = pd.next_short();
    let raw = pd.next_ubyte().0;
    let mut bits = raw as u64;
    if bits <= 4 {
        bits = 4;
    }
    if bits >= 9 {
        bits = MAX_BITS_PER_BLOCK;
    }
    assert(bits == sd.bits);
    let palette: Option<Vec<i32>> = if bits < 9 {
        Some(read_counted_varints(pd))
    } else {
        None
    };
    let array = read_counted_longs(pd);
    assert(array@ == sd.longs);
    assert(palette matches Some(p) ==> sd.palette == Some(p@.map_values(|v: i32| v as int)));
    assert(palette is None ==> sd.palette is None);
    let mut mask: u64 = 0;
    assert(((1u64 << 0u64) - 1) as u64 == 0u64) by (bit_vector);
    for j in 0..bits
        invariant
            bits <= 15,
            mask == low_mask(j),
    {
        proof {
            lemma_low_mask_step(j);
        }
        mask |= 1 << j;
    }
    let blocks_per_long = 64 / bits;
    assert(blocks_per_long >= 4) by (nonlinear_arith)
        requires
            blocks_per_long == 64u64 / bits,
            4 <= bits <= 15,
    ;
    let mut blocks = [0u16; 4096];
    for j in 0..4096u64
        invariant
            4 <= bits <= 15,
            bits == sd.bits,
            mask == low_mask(bits),
            blocks_per_long == 64u64 / bits,
            blocks_per_long >= 4,
            array@ == sd.longs,
            palette matches Some(p) ==> sd.palette == Some(p@.map_values(|v: i32| v as int)),
            palette is None ==> sd.palette is None,
            section_complete(sd),
            forall|k: int| 0 <= k < j ==> blocks@[k] == section_block(sd, k as u64),
    {
        let long = j / blocks_per_long;
        let rem = j % blocks_per_long;
        assert(long <= 4095u64 / blocks_per_long) by (nonlinear_arith)
            requires
                j < 4096,
                blocks_per_long > 0,
                long == j / blocks_per_long,
        ;
        assert(rem * bits < 64) by (nonlinear_arith)
            requires
                rem == j % blocks_per_long,
                blocks_per_long == 64u64 / bits,
                4 <= bits <= 15,
        ;
        let start = rem * bits;
        let block = (array[long as usize] >> start) & mask;
        assert(block == packed_index(sd, j));
        match &palette {
            Some(pal) => {
                assert(packed_index(sd, j) < sd.palette.unwrap().len());
                blocks[j as usize] = pal[block as usize] as u16;
            },
            None => {
                blocks[j as usize] = block as u16;
            },
        }
    }
    assert(blocks@ =~= Seq::new(4096, |j: int| section_block(sd, j as u64)));
    ChunkSection { y: y as i32, blocks }
}

/// Decodes the sixteen sections of a chunk from its data: the sections whose bit is set
/// in `mask` are read one after the other, the others stay empty.
pub fn process_sections(mask: i64, data: &Vec<u8>) -> (sections: [Option<ChunkSection>; 16])
    requires
        read_sections(data@, mask, 16) is Some,
    ensures
        sections_numbered(sections@),
        sections@.map_values(|s: Option<ChunkSection>| section_view(s)) == read_sections(
            data@,
            mask,
            16,
        ).unwrap().0,
{
    let mut sections: [Option<ChunkSection>; 16] = [None; 16];
    let mut pd = PacketDecoder::with_index(data, 0);
    for i in 0..16usize
        invariant
            pd.buffer() == data@,
            read_sections(data@, mask, 16) is Some,
            forall|k: int| i <= k < 16 ==> sections@[k] is None,
            sections_numbered(sections@),
            read_sections(data@, mask, i as nat) matches Some((ss, p)) && p == pd.index()
                && sections@.take(i as int).map_values(|s: Option<ChunkSection>| section_view(s))
                == ss,
    {
        proof {
            lemma_sections_shorter(data@, mask, (i + 1) as nat, 16);
        }
        let ghost ss = read_sections(data@, mask, i as nat).unwrap().0;
        let ghost before = sections@;
        let ghost p = pd.index();
        if mask & (1i64 << i) != 0 {
            assert(section_present(mask, i as int));
            let cs = read_one_section(&mut pd, i);
            sections[i] = Some(cs);
            proof {
                assert(read_sections(data@, mask, (i + 1) as nat) == Some(
                    (ss.push(Some(cs.blocks@)), pd.index()),
                ));
                assert(sections@.take(i as int) =~= before.take(i as int));
                assert(sections@.take(i + 1).map_values(|s: Option<ChunkSection>| section_view(s))
                    =~= ss.push(Some(cs.blocks@)));
            }
        } else {
            assert(!section_present(mask, i as int));
            proof {
                assert(read_sections(data@, mask, (i + 1) as nat) == Some((ss.push(None), p)));
                assert(sections@.take(i + 1).map_values(|s: Option<ChunkSection>| section_view(s))
                    =~= ss.push(None));
            }
        }
    }
    proof {
        assert(sections@.take(16) =~= sections@);
    }
    sections
}

/// The bytes of a list of signed bytes.
pub open spec fn raw_bytes(data: Seq<Byte>) -> Seq<u8> {
    data.map_values(|b: Byte| b.0 as u8)
}

/// Copies a list of signed bytes into plain bytes.
fn bytes_of(data: &Vec<Byte>) -> (out: Vec<u8>)
    ensures
        out@ == raw_bytes(data@),
{
    let mut out: Vec<u8> = Vec::new();
    for i in 0..data.len()
        invariant
            out@ == raw_bytes(data@.take(i as int)),
    {
        out.push(data[i].0 as u8);
        proof {
            assert(raw_bytes(data@.take(i + 1)) =~= raw_bytes(data@.take(i as int)).push(
                data@[i as int].0 as u8,
            ));
        }
    }
    proof {
        assert(data@.take(data@.len() as int) =~= data@);
    }
    out
}

impl Chunk {
    /// Builds a chunk from its coordinates, the longs of its packed heightmap, its section
    /// mask and its section data.
    pub fn from_parts(x: i32, z: i32, heights: &Vec<i64>, mask: i64, data: &Vec<u8>) -> (c: Chunk)
        requires
            heights@.len() >= 37,
            read_sections(data@, mask, 16) is Some,
        ensures
            c.spec_x() == x,
            c.spec_z() == z,
            c.heights() == Seq::new(256, |i: int| height_entry(heights@, i)),
            c.section_blocks() == read_sections(data@, mask, 16).unwrap().0,
    {
        let heightmap = process_heightmap(heights);
        let sections = process_sections(mask, data);
        let c = Chunk { x, z, heightmap, sections };
        assert(c.heights() =~= Seq::new(256, |i: int| height_entry(heights@, i)));
        c
    }

    /// Builds a chunk from a `ChunkData` packet: the heightmap is the `MOTION_BLOCKING`
    /// long array of the packet's heightmaps, and the sections come from its data. The
    /// heightmap is looked up in an NBT compound; when it is missing or has fewer than
    /// 37 longs, there is no chunk.
    pub fn new(data: &ChunkData) -> (c: Option<Chunk>)
        requires
            data.bit_mask@.len() > 0,
            read_sections(raw_bytes(data.data@), data.bit_mask@[0].0, 16) is Some,
        ensures
            c is Some <==> heightmap_longs(*data) is Some,
            c matches Some(ch) ==> chunk_from_packet(ch, *data),
    {
        let list = match long_array_named(&data.heightmaps.0, "MOTION_BLOCKING") {
            Some(l) => l,
            None => {
                return None;
            },
        };
        if list.len() < 37 {
            return None;
        }
        let bytes = bytes_of(&data.data);
        Some(Chunk::from_parts(data.x.0, data.z.0, &list, data.bit_mask[0].0, &bytes))
    }
}

/// The name of the heightmap that a chunk keeps.
pub open spec fn motion_blocking() -> Seq<char> {
    "MOTION_BLOCKING"@
}

/// The `MOTION_BLOCKING` long array among a packet's heightmaps, when there is one with
/// the 37 longs that 256 nine-bit heights take.
pub open spec fn heightmap_longs(data: ChunkData) -> Option<Seq<i64>> {
    let arrays = nbt_long_arrays(data.heightmaps.0);
    if arrays.contains_key(motion_blocking()) && arrays[motion_blocking()].len() >= 37 {
        Some(arrays[motion_blocking()])
    } else {
        None
    }
}

/// Whether a packet describes a whole chunk: a first section mask, sections that can all
/// be read and unpacked, and a heightmap.
pub open spec fn chunk_decodable(data: ChunkData) -> bool {
    &&& data.bit_mask@.len() > 0
    &&& read_sections(raw_bytes(data.data@), data.bit_mask@[0].0, 16) is Some
    &&& heightmap_longs(data) is Some
}

/// `ch` is the chunk that `data` describes: its position, its heights and its blocks.
pub open spec fn chunk_from_packet(ch: Chunk, data: ChunkData) -> bool {
    &&& ch.spec_x() == data.x.0
    &&& ch.spec_z() == data.z.0
    &&& ch.heights() == Seq::new(256, |i: int| height_entry(heightmap_longs(data).unwrap(), i))
    &&& ch.section_blocks() == read_sections(
        raw_bytes(data.data@),
        data.bit_mask@[0].0,
        16,
    ).unwrap().0
}

/// Reads one section when it can be read and all of its blocks unpacked, and gives `None`
/// otherwise.
fn try_read_one_section(pd: &mut PacketDecoder, y: usize) -> (res: Option<ChunkSection>)
    requires
        y < 16,
    ensures
        final(pd).buffer() == old(pd).buffer(),
        match res {
            Some(cs) => {
                &&& cs.y == y
                &&& read_section(old(pd).buffer(), old(pd).index()) matches Some((sd, p))
                    && section_complete(sd) && p == final(pd).index() && cs.blocks@ == Seq::new(
                    4096,
                    |j: int| section_block(sd, j as u64),
                )
            },
            None => !(read_section(old(pd).buffer(), old(pd).index()) matches Some((sd, _))
                && section_complete(sd)),
        },
{
    let ghost buf = pd.buffer();
    let ghost start = pd.index();
    let buf_len = pd.buffer_len();
    let pos = pd.get_index();
    if pos > buf_len || buf_len - pos < 2 {
        return None;
    }
    let _block_count = pd.next_short();
    if pd.get_index() >= buf_len {
        return None;
    }
    let raw = pd.next_ubyte().0;
    let mut bits = raw as u64;
    if bits <= 4 {
        bits = 4;
    }
    if bits >= 9 {
        bits = MAX_BITS_PER_BLOCK;
    }
    let palette: Option<Vec<i32>> = if bits < 9 {
        if pd.field_end_here(FieldKind::Counted(Scalar::VarInt)).is_none() {
            return None;
        }
        Some(read_counted_varints(pd))
    } else {
        None
    };
    if pd.field_end_here(FieldKind::Counted(Scalar::Long)).is_none() {
        return None;
    }
    let array = read_counted_longs(pd);
    let ghost sd = read_section(buf, start).unwrap().0;
    assert(read_section(buf, start) == Some((sd, pd.index())));
    assert(bits == sd.bits);
    assert(array@ == sd.longs);
    assert(palette matches Some(p) ==> sd.palette == Some(p@.map_values(|v: i32| v as int)));
    assert(palette is None ==> sd.palette is None);
    let blocks_per_long = 64 / bits;
    assert(blocks_per_long >= 4) by (nonlinear_arith)
        requires
            blocks_per_long == 64u64 / bits,
            4 <= bits <= 15,
    ;
    if 4095 / blocks_per_long >= array.len() as u64 {
        return None;
    }
    let mut mask: u64 = 0;
    assert(((1u64 << 0u64) - 1) as u64 == 0u64) by (bit_vector);
    for j in 0..bits
        invariant
            bits <= 15,
            mask == low_mask(j),
    {
        proof {
            lemma_low_mask_step(j);
        }
        mask |= 1 << j;
    }
    let mut blocks = [0u16; 4096];
    for j in 0..4096u64
        invariant
            pd.buffer() == buf,
            buf == old(pd).buffer(),
            start == old(pd).index(),
            read_section(buf, start) == Some((sd, pd.index())),
            4 <= bits <= 15,
            bits == sd.bits,
            mask == low_mask(bits),
            blocks_per_long == 64u64 / bits,
            blocks_per_long >= 4,
            4095u64 / blocks_per_long < array@.len(),
            array@ == sd.longs,
            palette matches Some(p) ==> sd.palette == Some(p@.map_values(|v: i32| v as int)),
            palette is None ==> sd.palette is None,
            forall|k: u64| 0 <= k < j ==> (sd.palette matches Some(p) ==> #[trigger] packed_index(sd, k) < p.len()),
            forall|k: int| 0 <= k < j ==> blocks@[k] == section_block(sd, k as u64),
    {
        let long = j / blocks_per_long;
        let rem = j % blocks_per_long;
        assert(long <= 4095u64 / blocks_per_long) by (nonlinear_arith)
            requires
                j < 4096,
                blocks_per_long > 0,
                long == j / blocks_per_long,
        ;
        assert(rem * bits < 64) by (nonlinear_arith)
            requires
                rem == j % blocks_per_long,
                blocks_per_long == 64u64 / bits,
                4 <= bits <= 15,
        ;
        let start = rem * bits;
        let block = (array[long as usize] >> start) & mask;
        assert(block == packed_index(sd, j));
        match &palette {
            Some(pal) => {
                if block >= pal.len() as u64 {
                    assert(!section_complete(sd));
                    return None;
                }
                blocks[j as usize] = pal[block as usize] as u16;
            },
            None => {
                blocks[j as usize] = block as u16;
            },
        }
    }
    assert(section_complete(sd));
    assert(blocks@ =~= Seq::new(4096, |j: int| section_block(sd, j as u64)));
    Some(ChunkSection { y: y as i32, blocks })
}

/// A chunk whose sections cannot be read cannot be read with more sections either.
proof fn lemma_sections_stop(buf: Seq<u8>, mask: i64, k: nat, n: nat)
    requires
        k <= n,
        read_sections(buf, mask, k) is None,
    ensures
        read_sections(buf, mask, n) is None,
{
    if read_sections(buf, mask, n) is Some {
        lemma_sections_shorter(buf, mask, k, n);
    }
}

/// Decodes the sixteen sections of a chunk from its data when they can be read, and gives
/// `None` when a section is cut short or holds an index outside its palette.
pub fn try_process_sections(mask: i64, data: &Vec<u8>) -> (res: Option<[Option<ChunkSection>; 16]>)
    ensures
        res is Some <==> read_sections(data@, mask, 16) is Some,
        res matches Some(sections) ==> sections_numbered(sections@),
        res matches Some(sections) ==> sections@.map_values(
            |s: Option<ChunkSection>| section_view(s),
        ) == read_sections(data@, mask, 16).unwrap().0,
{
    let mut sections: [Option<ChunkSection>; 16] = [None; 16];
    let mut pd = PacketDecoder::with_index(data, 0);
    for i in 0..16usize
        invariant
            pd.buffer() == data@,
            forall|k: int| i <= k < 16 ==> sections@[k] is None,
            sections_numbered(sections@),
            read_sections(data@, mask, i as nat) matches Some((ss, p)) && p == pd.index()
                && sections@.take(i as int).map_values(|s: Option<ChunkSection>| section_view(s))
                == ss,
    {
        let ghost ss = read_sections(data@, mask, i as nat).unwrap().0;
        let ghost before = sections@;
        let ghost p = pd.index();
        if mask & (1i64 << i) != 0 {
            assert(section_present(mask, i as int));
            match try_read_one_section(&mut pd, i) {
                Some(cs) => {
                    sections[i] = Some(cs);
                    proof {
                        assert(read_sections(data@, mask, (i + 1) as nat) == Some(
                            (ss.push(Some(cs.blocks@)), pd.index()),
                        ));
                        assert(sections@.take(i as int) =~= before.take(i as int));
                        assert(sections@.take(i + 1).map_values(
                            |s: Option<ChunkSection>| section_view(s),
                        ) =~= ss.push(Some(cs.blocks@)));
                    }
                },
                None => {
                    proof {
                        assert(read_sections(data@, mask, (i + 1) as nat) is None);
                        lemma_sections_stop(data@, mask, (i + 1) as nat, 16);
                    }
                    return None;
                },
            }
        } else {
            assert(!section_present(mask, i as int));
            proof {
                assert(read_sections(data@, mask, (i + 1) as nat) == Some((ss.push(None), p)));
                assert(sections@.take(i + 1).map_values(|s: Option<ChunkSection>| section_view(s))
                    =~= ss.push(None));
            }
        }
    }
    proof {
        assert(sections@.take(16) =~= sections@);
    }
    Some(sections)
}

impl Chunk {
    /// Builds a chunk from a `ChunkData` packet when its sections can be read, and gives
    /// `None` when the packet has no section mask, a section cannot be read, or the
    /// heightmap is missing or has fewer than 37 longs.
    pub fn try_new(data: &ChunkData) -> (c: Option<Chunk>)
        ensures
            c is Some <==> chunk_decodable(*data),
            c matches Some(ch) ==> chunk_from_packet(ch, *data),
    {
        if data.bit_mask.len() == 0 {
            return None;
        }
        let bytes = bytes_of(&data.data);
        let sections = match try_process_sections(data.bit_mask[0].0, &bytes) {
            Some(s) => s,
            None => {
                return None;
            },
        };
        let list = match long_array_named(&data.heightmaps.0, "MOTION_BLOCKING") {
            Some(l) => l,
            None => {
                return None;
            },
        };
        if list.len() < 37 {
            return None;
        }
        let heightmap = process_heightmap(&list);
        let ch = Chunk { x: data.x.0, z: data.z.0, heightmap, sections };
        assert(ch.heights() =~= Seq::new(256, |i: int| height_entry(list@, i)));
        Some(ch)
    }
}

/// The bits per block of a section are the byte sent after its block count, except that
/// a byte below 4 is raised to 4 and a byte of 9 or more means 15 bits with no palette:
/// a byte from 4 to 8 is used as it is, with `64 / b` indices to a long, and a palette
/// is read exactly when fewer than 9 bits are used.
pub proof fn law_section_bits_per_block(buf: Seq<u8>, pos: nat)
    requires
        read_section(buf, pos) is Some,
    ensures
        pos + 2 < buf.len(),
        ({
            let b = buf[pos + 2int];
            let sd = read_section(buf, pos).unwrap().0;
            &&& sd.bits == (if b < 4 {
                4u64
            } else if b < 9 {
                b as u64
            } else {
                15u64
            })
            &&& (4 <= b <= 8 ==> 64u64 / sd.bits == 64u64 / (b as u64))
            &&& (sd.palette is Some <==> b < 9)
        }),
{
}

/// How a section's blocks are unpacked when a palette is used: with `b` bits per block
/// (`b` the byte sent, raised to 4 when lower), `64 / b` indices fill each long from its
/// low bits up, so block `j` takes the `b` bits at place `(j % (64 / b)) * b` of long
/// `j / (64 / b)`, and its state id is the palette entry at that index.
pub proof fn law_section_unpacking(buf: Seq<u8>, pos: nat, j: u64)
    requires
        read_section(buf, pos) matches Some((sd, _)) && section_complete(sd),
        buf[pos + 2int] < 9,
        j < 4096,
    ensures
        ({
            let sd = read_section(buf, pos).unwrap().0;
            let raw = buf[pos + 2int];
            let b: nat = if raw < 4 {
                4
            } else {
                raw as nat
            };
            let per: nat = 64nat / b;
            let long = sd.longs[(j as nat / per) as int];
            let index = (long as nat / pow2(((j as nat % per) * b) as nat)) % pow2(b);
            &&& sd.palette matches Some(p) && index < p.len()
            &&& section_block(sd, j) == (sd.palette.unwrap()[index as int] as u16)
        }),
{
    law_section_bits_per_block(buf, pos);
    let sd = read_section(buf, pos).unwrap().0;
    let b = sd.bits;
    assert(4 <= b <= 8);
    let per = 64u64 / b;
    assert(per == 64nat / (b as nat));
    assert(per as int == 64int / (b as int));
    assert(0 < 64int / (b as int) <= 16) by (nonlinear_arith)
        requires
            4 <= b <= 8,
    ;
    let q = (j / per) as int;
    let r = j % per;
    assert(j as nat / (per as nat) == q && j as nat % (per as nat) == r);
    let shift: u64 = (r * b) as u64;
    assert(r * b < 64) by (nonlinear_arith)
        requires
            4 <= b <= 8,
            per == 64u64 / b,
            r < per,
    ;
    let long = sd.longs[q];
    lemma_u64_pow2_no_overflow(b as nat);
    lemma_u64_shr_is_div(long, shift);
    lemma_u64_shl_is_mul(1u64, b);
    lemma_u64_low_bits_mask_is_mod(long >> shift, b as nat);
    assert(low_mask(b) == low_bits_mask(b as nat) as u64);
    assert(packed_index(sd, j) == ((long >> shift) & low_mask(b)));
    assert(packed_index(sd, j) as nat == (long as nat / pow2(shift as nat)) % pow2(b as nat));
}

} // verus!
