//! The world as the client knows it: the chunks it has received, and the coordinates that
//! find a block's chunk and its place within it.
use vstd::prelude::*;

use crate::resources::BlockState;
use crate::world::chunks::{block_id_in, law_block_read_back, with_block, Chunk};

pub mod chunks;

verus! {

/// The block coordinates (x, z) within their chunk: each taken modulo 16, from 0 to 15.
pub fn chunk_coords(coords: (i32, i32)) -> (local: (i32, i32))
    ensures
        local.0 == coords.0 as int % 16,
        local.1 == coords.1 as int % 16,
{
    (rem16(coords.0), rem16(coords.1))
}

/// The coordinates (x, z) of the chunk that holds the block at `coords`: each divided by
/// 16, rounded down.
pub fn chunk_at_coords(coords: (i32, i32)) -> (chunk: (i32, i32))
    ensures
        chunk.0 == coords.0 as int / 16,
        chunk.1 == coords.1 as int / 16,
{
    (div16(coords.0), div16(coords.1))
}

/// A world coordinate is its chunk's coordinate times 16 plus its coordinate within the
/// chunk, which lies from 0 to 15: `chunk_at_coords` and `chunk_coords` split a
/// coordinate without losing anything.
pub proof fn law_chunk_split(v: i32)
    ensures
        0 <= v as int % 16 < 16,
        (v as int / 16) * 16 + v as int % 16 == v,
        i32::MIN / 16 <= v as int / 16 <= i32::MAX / 16,
{
}

/// `v` modulo 16, from 0 to 15.
fn rem16(v: i32) -> (r: i32)
    ensures
        r == v as int % 16,
{
    let shifted = (v as i64 + 0x8000_0000) as u64;
    let r = (shifted % 16) as i32;
    assert((v as int + 0x8000_0000) % 16 == v as int % 16) by (nonlinear_arith);
    r
}

/// `v` divided by 16, rounded down.
fn div16(v: i32) -> (q: i32)
    ensures
        q == v as int / 16,
{
    let shifted = (v as i64 + 0x8000_0000) as u64;
    let q = ((shifted / 16) as i64 - 0x800_0000) as i32;
    assert((v as int + 0x8000_0000) / 16 - 0x800_0000 == v as int / 16) by (nonlinear_arith);
    q
}

/// The chunk's coordinates (x, z).
pub open spec fn coords_of(c: Chunk) -> (i32, i32) {
    (c.spec_x(), c.spec_z())
}

/// The last chunk of `chunks` at `coords`.
pub open spec fn find_chunk(chunks: Seq<Chunk>, coords: (i32, i32)) -> Option<Chunk>
    decreases chunks.len(),
{
    if chunks.len() == 0 {
        None
    } else if coords_of(chunks.last()) == coords {
        Some(chunks.last())
    } else {
        find_chunk(chunks.drop_last(), coords)
    }
}

/// The chunks of a list, by their coordinates.
pub open spec fn chunk_map(chunks: Seq<Chunk>) -> Map<(i32, i32), Chunk> {
    Map::new(
        |c: (i32, i32)| find_chunk(chunks, c) is Some,
        |c: (i32, i32)| find_chunk(chunks, c).unwrap(),
    )
}

/// The chunks the client holds, and the chunks and sections whose meshes are to be built.
pub struct World {
    chunks: Vec<Chunk>,
    chunks_to_generate: Vec<(i32, i32)>,
    sections_to_generate: Vec<(i32, i32, i32)>,
}

impl View for World {
    type V = Map<(i32, i32), Chunk>;

    closed spec fn view(&self) -> Map<(i32, i32), Chunk> {
        chunk_map(self.chunks@)
    }
}

/// What the map of a list of chunks holds at `c`.
proof fn lemma_chunk_map(chunks: Seq<Chunk>, c: (i32, i32))
    ensures
        chunk_map(chunks).contains_key(c) == (find_chunk(chunks, c) is Some),
        chunk_map(chunks).contains_key(c) ==> chunk_map(chunks)[c] == find_chunk(chunks, c).unwrap(),
{
}

/// A chunk added at the end of the list is the one found at its coordinates.
proof fn lemma_find_push(chunks: Seq<Chunk>, x: Chunk, c: (i32, i32))
    ensures
        find_chunk(chunks.push(x), c) == (if coords_of(x) == c {
            Some(x)
        } else {
            find_chunk(chunks, c)
        }),
{
    assert(chunks.push(x).drop_last() =~= chunks);
}

impl World {
    /// The section coordinates queued for a mesh, oldest first.
    pub closed spec fn queued_sections(&self) -> Seq<(i32, i32, i32)> {
        self.sections_to_generate@
    }

    /// The chunk coordinates queued for a mesh, oldest first.
    pub closed spec fn queued_chunks(&self) -> Seq<(i32, i32)> {
        self.chunks_to_generate@
    }

    /// A world with no chunks.
    pub fn new() -> (w: World)
        ensures
            w@ == Map::<(i32, i32), Chunk>::empty(),
            w.queued_chunks() == Seq::<(i32, i32)>::empty(),
            w.queued_sections() == Seq::<(i32, i32, i32)>::empty(),
    {
        let w = World {
            chunks: Vec::new(),
            chunks_to_generate: Vec::new(),
            sections_to_generate: Vec::new(),
        };
        assert(w@ =~= Map::<(i32, i32), Chunk>::empty());
        w
    }

    /// The chunk at `coords`, if the world holds one.
    pub fn get_chunk(&self, coords: (i32, i32)) -> (c: Option<&Chunk>)
        ensures
            match c {
                Some(ch) => self@.contains_key(coords) && self@[coords] == *ch,
                None => !self@.contains_key(coords),
            },
    {
        let mut i = self.chunks.len();
        assert(self.chunks@.take(i as int) =~= self.chunks@);
        while i > 0
            invariant
                i <= self.chunks@.len(),
                find_chunk(self.chunks@, coords) == find_chunk(self.chunks@.take(i as int), coords),
            decreases i,
        {
            let ghost s = self.chunks@.take(i as int);
            assert(s.drop_last() =~= self.chunks@.take(i - 1));
            let here = self.chunks[i - 1].get_coords();
            if here.0 == coords.0 && here.1 == coords.1 {
                return Some(&self.chunks[i - 1]);
            }
            i -= 1;
        }
        None
    }

    /// Drops the chunk at `coords`, if there is one.
    pub fn remove_chunk(&mut self, coords: (i32, i32))
        ensures
            final(self)@ == old(self)@.remove(coords),
            final(self).queued_chunks() == old(self).queued_chunks(),
            final(self).queued_sections() == old(self).queued_sections(),
    {
        let mut kept: Vec<Chunk> = Vec::new();
        let ghost all = self.chunks@;
        for i in 0..self.chunks.len()
            invariant
                all == self.chunks@,
                find_chunk(kept@, coords) is None,
                forall|c: (i32, i32)| c != coords ==> find_chunk(kept@, c) == find_chunk(
                    all.take(i as int),
                    c,
                ),
        {
            let ch = self.chunks[i];
            proof {
                assert(all.take(i + 1).drop_last() =~= all.take(i as int));
                lemma_find_push(kept@, ch, coords);
            }
            let here = ch.get_coords();
            if here.0 != coords.0 || here.1 != coords.1 {
                let ghost before = kept@;
                kept.push(ch);
                proof {
                    assert forall|c: (i32, i32)| c != coords implies find_chunk(kept@, c)
                        == find_chunk(all.take(i + 1), c) by {
                        lemma_find_push(before, ch, c);
                    }
                }
            }
        }
        proof {
            assert(all.take(all.len() as int) =~= all);
        }
        self.chunks = kept;
        assert(self@ =~= old(self)@.remove(coords));
    }

    /// Puts `chunk` in place of any chunk at its coordinates.
    fn put_chunk(&mut self, chunk: Chunk)
        ensures
            final(self)@ == old(self)@.insert(coords_of(chunk), chunk),
            final(self).queued_chunks() == old(self).queued_chunks(),
            final(self).queued_sections() == old(self).queued_sections(),
    {
        let coords = chunk.get_coords();
        self.remove_chunk(coords);
        let ghost before = self.chunks@;
        self.chunks.push(chunk);
        proof {
            assert forall|c: (i32, i32)| #![auto] find_chunk(self.chunks@, c) == (if coords_of(
                chunk,
            ) == c {
                Some(chunk)
            } else {
                find_chunk(before, c)
            }) by {
                lemma_find_push(before, chunk, c);
            }
            let m = old(self)@.insert(coords_of(chunk), chunk);
            assert(chunk_map(before) == old(self)@.remove(coords));
            assert forall|c: (i32, i32)|
                #![trigger self@.dom().contains(c)]
                #![trigger m.dom().contains(c)]
                self@.dom().contains(c) == m.dom().contains(c) && (self@.dom().contains(c)
                    ==> self@[c] == m[c]) by {
                lemma_chunk_map(self.chunks@, c);
                lemma_chunk_map(before, c);
                if c != coords_of(chunk) {
                    assert(chunk_map(before).contains_key(c) == old(self)@.contains_key(c));
                }
            }
            assert(self@.dom() =~= m.dom());
            assert(self@ =~= m);
        }
    }

    /// Adds `chunk`, in place of any chunk at its coordinates, and queues its mesh.
    pub fn insert_chunk(&mut self, chunk: Chunk)
        ensures
            final(self)@ == old(self)@.insert(coords_of(chunk), chunk),
            final(self).queued_chunks() == old(self).queued_chunks().push(coords_of(chunk)),
            final(self).queued_sections() == old(self).queued_sections(),
    {
        let coords = chunk.get_coords();
        self.put_chunk(chunk);
        self.queue_chunk_mesh(coords);
    }

    /// Queues the mesh of the chunk at `location`.
    pub fn queue_chunk_mesh(&mut self, location: (i32, i32))
        ensures
            final(self)@ == old(self)@,
            final(self).queued_chunks() == old(self).queued_chunks().push(location),
            final(self).queued_sections() == old(self).queued_sections(),
    {
        self.chunks_to_generate.push(location);
    }

    /// Queues the mesh of the section at `location`.
    pub fn queue_chunk_section_mesh(&mut self, location: (i32, i32, i32))
        ensures
            final(self)@ == old(self)@,
            final(self).queued_chunks() == old(self).queued_chunks(),
            final(self).queued_sections() == old(self).queued_sections().push(location),
    {
        self.sections_to_generate.push(location);
    }

    /// Whether the chunk at `loc` and its four neighbours are all loaded.
    pub fn are_chunk_neighbours_loaded(&self, loc: (i32, i32)) -> (b: bool)
        requires
            i32::MIN < loc.0 < i32::MAX,
            i32::MIN < loc.1 < i32::MAX,
        ensures
            b <==> (self@.contains_key(loc) && self@.contains_key((loc.0, (loc.1 - 1) as i32))
                && self@.contains_key(((loc.0 + 1) as i32, loc.1)) && self@.contains_key(
                (loc.0, (loc.1 + 1) as i32),
            ) && self@.contains_key(((loc.0 - 1) as i32, loc.1))),
    {
        let chunk = self.get_chunk(loc);
        let north = self.get_chunk((loc.0, loc.1 - 1));
        let east = self.get_chunk((loc.0 + 1, loc.1));
        let south = self.get_chunk((loc.0, loc.1 + 1));
        let west = self.get_chunk((loc.0 - 1, loc.1));
        chunk.is_some() && north.is_some() && east.is_some() && south.is_some() && west.is_some()
    }

    /// The height of the highest motion blocking block in the world column at `coords`
    /// (x, z); `None` where the column lies in a chunk that is not loaded.
    pub fn get_highest_block(&self, coords: (i32, i32)) -> (h: Option<i32>)
        ensures
            h == (match self@.get(((coords.0 as int / 16) as i32, (coords.1 as int / 16) as i32)) {
                Some(ch) => Some(
                    ch.heights()[(coords.1 as int % 16) * 16 + coords.0 as int % 16] as i32,
                ),
                None => None,
            }),
    {
        let at = chunk_at_coords(coords);
        match self.get_chunk(at) {
            Some(chunk) => Some(chunk.get_highest_block(chunk_coords(coords))),
            None => None,
        }
    }

    /// The block state id at world coordinates `coords` (x, y, z), if its chunk is
    /// loaded.
    pub fn block_id_at(&self, coords: (i32, i32, i32)) -> (id: Option<u16>)
        ensures
            id == world_block(self@, coords.0 as int, coords.1 as int, coords.2 as int),
    {
        let at = chunk_at_coords((coords.0, coords.2));
        match self.get_chunk(at) {
            Some(c) => {
                let local = chunk_coords((coords.0, coords.2));
                Some(c.block_id_at((local.0, coords.1, local.1)))
            },
            None => None,
        }
    }
}

impl World {
    /// The block state at world coordinates `coords` (x, y, z), looked up by its id in
    /// the table `blocks`, if its chunk is loaded.
    pub fn block_at<'a>(&self, coords: (i32, i32, i32), blocks: &'a Vec<BlockState>) -> (b: Option<
        &'a BlockState,
    >)
        requires
            world_block(self@, coords.0 as int, coords.1 as int, coords.2 as int) matches Some(id)
                ==> (id as int) < blocks@.len(),
        ensures
            match world_block(self@, coords.0 as int, coords.1 as int, coords.2 as int) {
                Some(id) => b == Some(&blocks@[id as int]),
                None => b is None,
            },
    {
        match self.block_id_at(coords) {
            Some(id) => Some(&blocks[id as usize]),
            None => None,
        }
    }
}

/// The block state id at world coordinates (x, y, z) in a world holding `chunks`: `None`
/// where the chunk is not loaded.
pub open spec fn world_block(chunks: Map<(i32, i32), Chunk>, x: int, y: int, z: int) -> Option<u16> {
    match chunks.get(((x / 16) as i32, (z / 16) as i32)) {
        Some(c) => Some(block_id_in(c.section_blocks(), x % 16, y, z % 16)),
        None => None,
    }
}

/// The chunk found at `c` has the coordinates `c`.
proof fn lemma_found_coords(chunks: Seq<Chunk>, c: (i32, i32))
    ensures
        find_chunk(chunks, c) matches Some(ch) ==> coords_of(ch) == c,
    decreases chunks.len(),
{
    if chunks.len() > 0 {
        lemma_found_coords(chunks.drop_last(), c);
    }
}

/// Each chunk of a world is held under its own coordinates.
pub proof fn law_chunks_under_own_coords(w: &World, c: (i32, i32))
    ensures
        w@.contains_key(c) ==> coords_of(w@[c]) == c,
{
    lemma_chunk_map(w.chunks@, c);
    lemma_found_coords(w.chunks@, c);
}

/// The key of the chunk holding world column (x, z).
pub open spec fn chunk_key(x: int, z: int) -> (i32, i32) {
    ((x / 16) as i32, (z / 16) as i32)
}

/// Whether a block change to state `id` at (x, y, z) is carried out: the id is one of the
/// `known` block states (the check lets `known` itself through), the height is within a
/// chunk, and the chunk is loaded.
pub open spec fn block_change_applies(
    chunks: Map<(i32, i32), Chunk>,
    x: int,
    y: int,
    z: int,
    id: int,
    known: int,
) -> bool {
    &&& 0 <= id <= known
    &&& 0 <= y < 256
    &&& chunks.contains_key(chunk_key(x, z))
}

/// How a block change leaves the chunks: where it applies, the block's chunk has block
/// state `id` at the block and is otherwise as before, and every other chunk is as before;
/// where it does not apply, nothing changes.
pub open spec fn block_changed(
    before: Map<(i32, i32), Chunk>,
    after: Map<(i32, i32), Chunk>,
    x: int,
    y: int,
    z: int,
    id: int,
    known: int,
) -> bool {
    if block_change_applies(before, x, y, z, id, known) {
        let key = chunk_key(x, z);
        &&& after.dom() == before.dom()
        &&& forall|k: (i32, i32)|
            k != key && before.contains_key(k) ==> #[trigger] after[k] == before[k]
        &&& coords_of(after[key]) == coords_of(before[key])
        &&& after[key].heights() == before[key].heights()
        &&& after[key].section_blocks() == with_block(
            before[key].section_blocks(),
            x % 16,
            y,
            z % 16,
            id as u16,
        )
    } else {
        after == before
    }
}

/// The sections whose meshes a block change at (x, y, z) makes stale: the block's own
/// section, then each neighbouring section that the block touches, across x, then y,
/// then z, lower side first.
pub open spec fn sections_to_refresh(x: int, y: int, z: int) -> Seq<(i32, i32, i32)> {
    let sx = x / 16;
    let sy = y / 16;
    let sz = z / 16;
    seq![(sx as i32, sy as i32, sz as i32)] + (if x % 16 == 0 {
        seq![((sx - 1) as i32, sy as i32, sz as i32)]
    } else {
        Seq::empty()
    }) + (if x % 16 == 15 {
        seq![((sx + 1) as i32, sy as i32, sz as i32)]
    } else {
        Seq::empty()
    }) + (if y % 16 == 0 {
        seq![(sx as i32, (sy - 1) as i32, sz as i32)]
    } else {
        Seq::empty()
    }) + (if y % 16 == 15 {
        seq![(sx as i32, (sy + 1) as i32, sz as i32)]
    } else {
        Seq::empty()
    }) + (if z % 16 == 0 {
        seq![(sx as i32, sy as i32, (sz - 1) as i32)]
    } else {
        Seq::empty()
    }) + (if z % 16 == 15 {
        seq![(sx as i32, sy as i32, (sz + 1) as i32)]
    } else {
        Seq::empty()
    })
}

impl World {
    /// Applies a block change from the server: block state `block_id` at (x, y, z). An id
    /// outside the `known_blocks` block states is ignored, as is a change in a chunk that
    /// is not loaded or outside a chunk's height. A change that is carried out creates the
    /// block's section if it was empty and queues the meshes of the sections it touches.
    pub fn handle_block_change(&mut self, x: i32, y: i32, z: i32, block_id: i32, known_blocks: usize)
        ensures
            block_changed(
                old(self)@,
                final(self)@,
                x as int,
                y as int,
                z as int,
                block_id as int,
                known_blocks as int,
            ),
            final(self).queued_chunks() == old(self).queued_chunks(),
            final(self).queued_sections() == old(self).queued_sections() + (
            if block_change_applies(
                old(self)@,
                x as int,
                y as int,
                z as int,
                block_id as int,
                known_blocks as int,
            ) {
                sections_to_refresh(x as int, y as int, z as int)
            } else {
                Seq::empty()
            }),
    {
        let ghost before = self.queued_sections();
        if block_id < 0 || block_id as usize > known_blocks {
            assert(self.queued_sections() =~= before + Seq::empty());
            return;
        }
        if y < 0 || y >= 256 {
            assert(self.queued_sections() =~= before + Seq::empty());
            return;
        }
        let key = chunk_at_coords((x, z));
        let local = chunk_coords((x, z));
        let mut chunk = match self.get_chunk(key) {
            Some(c) => *c,
            None => {
                assert(self.queued_sections() =~= before + Seq::empty());
                return;
            },
        };
        proof {
            law_chunks_under_own_coords(self, key);
        }
        let ghost old_chunk = chunk;
        chunk.set_block((local.0, y, local.1), block_id as u16);
        let ghost old_map = self@;
        self.put_chunk(chunk);
        proof {
            assert forall|k: (i32, i32)|
                k != key && old_map.contains_key(k) implies #[trigger] self@[k] == old_map[k] by {
            }
            assert(self@.dom() =~= old_map.dom());
        }
        self.queue_refresh(x, y, z);
    }

    /// Queues the meshes of the sections that a block change at (x, y, z) makes stale.
    fn queue_refresh(&mut self, x: i32, y: i32, z: i32)
        requires
            0 <= y < 256,
        ensures
            final(self)@ == old(self)@,
            final(self).queued_chunks() == old(self).queued_chunks(),
            final(self).queued_sections() == old(self).queued_sections() + sections_to_refresh(
                x as int,
                y as int,
                z as int,
            ),
    {
        let list = refresh_list(x, y, z);
        let ghost before = self.queued_sections();
        for i in 0..list.len()
            invariant
                self@ == old(self)@,
                self.queued_chunks() == old(self).queued_chunks(),
                before == old(self).queued_sections(),
                self.queued_sections() == before + list@.take(i as int),
        {
            self.queue_chunk_section_mesh(list[i]);
            assert(list@.take(i + 1) == list@.take(i as int).push(list@[i as int]));
            assert(before + list@.take(i + 1) =~= (before + list@.take(i as int)).push(
                list@[i as int],
            ));
        }
        assert(list@.take(list@.len() as int) =~= list@);
    }
}

/// The sections whose meshes a block change at (x, y, z) makes stale, as a list.
fn refresh_list(x: i32, y: i32, z: i32) -> (list: Vec<(i32, i32, i32)>)
    requires
        0 <= y < 256,
    ensures
        list@ == sections_to_refresh(x as int, y as int, z as int),
{
    let key = chunk_at_coords((x, z));
    let local = chunk_coords((x, z));
    let sx = key.0;
    let sy = y / 16;
    let sz = key.1;
    let ly = y % 16;
    let mut list: Vec<(i32, i32, i32)> = Vec::new();
    list.push((sx, sy, sz));
    let ghost s0 = list@;
    if local.0 == 0 {
        list.push((sx - 1, sy, sz));
    }
    let ghost s1 = list@;
    if local.0 == 15 {
        list.push((sx + 1, sy, sz));
    }
    let ghost s2 = list@;
    if ly == 0 {
        list.push((sx, sy - 1, sz));
    }
    let ghost s3 = list@;
    if ly == 15 {
        list.push((sx, sy + 1, sz));
    }
    let ghost s4 = list@;
    if local.1 == 0 {
        list.push((sx, sy, sz - 1));
    }
    let ghost s5 = list@;
    if local.1 == 15 {
        list.push((sx, sy, sz + 1));
    }
    let ghost sx_i = x as int / 16;
    let ghost sy_i = y as int / 16;
    let ghost sz_i = z as int / 16;
    assert(s0 =~= seq![(sx_i as i32, sy_i as i32, sz_i as i32)]);
    assert(s1 =~= s0 + (if x as int % 16 == 0 {
        seq![((sx_i - 1) as i32, sy_i as i32, sz_i as i32)]
    } else {
        Seq::empty()
    }));
    assert(s2 =~= s1 + (if x as int % 16 == 15 {
        seq![((sx_i + 1) as i32, sy_i as i32, sz_i as i32)]
    } else {
        Seq::empty()
    }));
    assert(s3 =~= s2 + (if y as int % 16 == 0 {
        seq![(sx_i as i32, (sy_i - 1) as i32, sz_i as i32)]
    } else {
        Seq::empty()
    }));
    assert(s4 =~= s3 + (if y as int % 16 == 15 {
        seq![(sx_i as i32, (sy_i + 1) as i32, sz_i as i32)]
    } else {
        Seq::empty()
    }));
    assert(s5 =~= s4 + (if z as int % 16 == 0 {
        seq![(sx_i as i32, sy_i as i32, (sz_i - 1) as i32)]
    } else {
        Seq::empty()
    }));
    assert(list@ =~= s5 + (if z as int % 16 == 15 {
        seq![(sx_i as i32, sy_i as i32, (sz_i + 1) as i32)]
    } else {
        Seq::empty()
    }));
    list
}

/// After a block change that applies, the world reads the new block state at the block,
/// and every other block reads as before.
pub proof fn law_block_change_read_back(
    w: &World,
    after: Map<(i32, i32), Chunk>,
    x: i32,
    y: i32,
    z: i32,
    id: i32,
    known: usize,
    x2: i32,
    y2: i32,
    z2: i32,
)
    requires
        block_changed(w@, after, x as int, y as int, z as int, id as int, known as int),
        block_change_applies(w@, x as int, y as int, z as int, id as int, known as int),
    ensures
        world_block(after, x as int, y as int, z as int) == Some(id as u16),
        (x2, y2, z2) != (x, y, z) ==> world_block(after, x2 as int, y2 as int, z2 as int)
            == world_block(w@, x2 as int, y2 as int, z2 as int),
{
    let key = chunk_key(x as int, z as int);
    w@[key].lemma_shape();
    law_block_read_back(
        w@[key].section_blocks(),
        x as int % 16,
        y as int,
        z as int % 16,
        id as u16,
        x2 as int % 16,
        y2 as int,
        z2 as int % 16,
    );
    if (x2, y2, z2) != (x, y, z) && chunk_key(x2 as int, z2 as int) == key {
        assert((x2 as int % 16, y2 as int, z2 as int % 16) != (x as int % 16, y as int, z as int % 16))
            by (nonlinear_arith)
            requires
                (x2, y2, z2) != (x, y, z),
                (x2 as int / 16) as i32 == (x as int / 16) as i32,
                (z2 as int / 16) as i32 == (z as int / 16) as i32,
        ;
    }
}

} // verus!
