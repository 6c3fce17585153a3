use mince_raft::resources::BlockState;
use mince_raft::network::messages::ChunkData;
use mince_raft::network::nbt::NBTTag;
use mince_raft::network::types::{Byte, Int, Long, VarInt};
use mince_raft::world::chunks::{process_heightmap, process_sections, try_process_sections, Chunk};
use mince_raft::world::{chunk_at_coords, chunk_coords, World};

/// One section at 4 bits per block, palette [0, 9], every block index 1.
fn one_section() -> Vec<u8> {
    let mut data = vec![0x00, 0x10, 0x04, 0x02, 0x00, 0x09, 0x80, 0x02];
    data.extend(std::iter::repeat(0x11u8).take(256 * 8));
    data
}

fn chunk_at(x: i32, z: i32) -> Chunk {
    let mut heights = vec![0i64; 37];
    heights[0] = 64;
    Chunk::from_parts(x, z, &heights, 1, &one_section())
}

#[test]
fn local_and_chunk_coordinates() {
    assert_eq!(chunk_coords((0, 0)), (0, 0));
    assert_eq!(chunk_coords((17, 31)), (1, 15));
    assert_eq!(chunk_coords((-1, -16)), (15, 0));
    assert_eq!(chunk_coords((-17, i32::MIN)), (15, 0));
    assert_eq!(chunk_at_coords((0, 15)), (0, 0));
    assert_eq!(chunk_at_coords((16, -1)), (1, -1));
    assert_eq!(chunk_at_coords((-16, -17)), (-1, -2));
    assert_eq!(chunk_at_coords((i32::MIN, i32::MAX)), (-134217728, 134217727));
}

#[test]
fn heightmap_unpacks_nine_bits() {
    let mut list = vec![0i64; 37];
    list[0] = 1 | (2 << 9) | (511 << 54);
    list[36] = 3 << 27;
    let map = process_heightmap(&list);
    assert_eq!(map[0], 1);
    assert_eq!(map[1], 2);
    assert_eq!(map[6], 511);
    assert_eq!(map[7], 0);
    // Column 255 is the fourth value of long 36.
    assert_eq!(map[255], 3);
}

#[test]
fn sections_follow_the_mask() {
    let sections = process_sections(1, &one_section());
    assert!(sections[0].is_some());
    assert!(sections[1].is_none());
    let s0 = sections[0].unwrap();
    assert_eq!(s0.y, 0);
    assert!(s0.blocks.iter().all(|b| *b == 9));
    // Two sections present but only one sent: cut short.
    assert!(try_process_sections(3, &one_section()).is_none());
    // A palette index beyond the palette.
    let mut bad = vec![0x00, 0x10, 0x04, 0x01, 0x00, 0x80, 0x02];
    bad.extend(std::iter::repeat(0x11u8).take(256 * 8));
    assert!(try_process_sections(1, &bad).is_none());
    // Too few longs for 4096 blocks.
    let short = vec![0x00, 0x10, 0x04, 0x01, 0x00, 0x01, 0, 0, 0, 0, 0, 0, 0, 0];
    assert!(try_process_sections(1, &short).is_none());
    // Nothing present: all sections empty.
    let none = try_process_sections(0, &vec![]).unwrap();
    assert!(none.iter().all(|s| s.is_none()));
}

#[test]
fn sections_without_palette_use_global_ids() {
    // Fifteen bits per block, no palette: four ids to a long.
    let mut data = vec![0x00, 0x01, 0x0f, 0x80, 0x08];
    for _ in 0..1024 {
        data.extend_from_slice(&[0, 0, 0, 0, 0, 0, 0, 5]);
    }
    let sections = process_sections(1, &data);
    let s0 = sections[0].unwrap();
    assert_eq!(s0.blocks[0], 5);
    assert_eq!(s0.blocks[1], 0);
    assert_eq!(s0.blocks[4], 5);
}

#[test]
fn chunk_blocks_and_heights() {
    let mut chunk = chunk_at(1, 2);
    assert_eq!(chunk.get_x(), 1);
    assert_eq!(chunk.get_z(), 2);
    assert_eq!(chunk.get_highest_block((0, 0)), 64);
    assert_eq!(chunk.block_id_at((0, 0, 0)), 9);
    assert_eq!(chunk.block_id_at((0, 16, 0)), 0);
    assert_eq!(chunk.block_id_at((-1, 0, 0)), 0);
    assert_eq!(chunk.block_id_at((0, 256, 0)), 0);
    chunk.set_block((2, 40, 3), 7);
    assert_eq!(chunk.block_id_at((2, 40, 3)), 7);
    assert_eq!(chunk.block_id_at((2, 41, 3)), 0);
    let table = vec![
        BlockState { name: String::from("Air"), id: 0, model: None, collision_shape: None },
        BlockState { name: String::from("Stone"), id: 1, model: None, collision_shape: Some(1) },
    ];
    assert_eq!(chunk.block_at((0, 100, 0), &table).name, "Air");
}

#[test]
fn world_holds_chunks_by_coordinates() {
    let mut world = World::new();
    assert!(world.get_chunk((0, 0)).is_none());
    world.insert_chunk(chunk_at(0, 0));
    world.insert_chunk(chunk_at(1, 0));
    assert_eq!(world.get_chunk((1, 0)).unwrap().get_coords(), (1, 0));
    assert_eq!(world.get_highest_block((0, 0)), Some(64));
    assert_eq!(world.get_highest_block((1, 0)), Some(0));
    assert_eq!(world.get_highest_block((100, 100)), None);
    assert_eq!(world.block_id_at((17, 3, 4)), Some(9));
    assert_eq!(world.block_id_at((-1, 3, 4)), None);
    world.remove_chunk((0, 0));
    assert!(world.get_chunk((0, 0)).is_none());
    assert!(world.get_chunk((1, 0)).is_some());
    // Inserting at the same coordinates replaces the chunk.
    let mut other = chunk_at(1, 0);
    other.set_block((0, 0, 0), 3);
    world.insert_chunk(other);
    assert_eq!(world.block_id_at((16, 0, 0)), Some(3));
}

#[test]
fn neighbours_loaded() {
    let mut world = World::new();
    for (x, z) in [(0, 0), (1, 0), (-1, 0), (0, 1), (0, -1)] {
        world.insert_chunk(chunk_at(x, z));
    }
    assert!(world.are_chunk_neighbours_loaded((0, 0)));
    assert!(!world.are_chunk_neighbours_loaded((1, 0)));
}

#[test]
fn block_change_reads_back() {
    let mut world = World::new();
    world.insert_chunk(chunk_at(0, 0));
    world.handle_block_change(5, 70, 6, 42, 100);
    assert_eq!(world.block_id_at((5, 70, 6)), Some(42));
    assert_eq!(world.block_id_at((5, 71, 6)), Some(0));
    assert_eq!(world.block_id_at((5, 3, 6)), Some(9));
    // Ids beyond the known block states, and unloaded chunks, are ignored.
    world.handle_block_change(5, 3, 6, 101, 100);
    world.handle_block_change(5, 3, 6, -1, 100);
    world.handle_block_change(40, 3, 6, 1, 100);
    assert_eq!(world.block_id_at((5, 3, 6)), Some(9));
    assert_eq!(world.block_id_at((40, 3, 6)), None);
    // The id equal to the number of known states still passes the check.
    world.handle_block_change(5, 3, 6, 100, 100);
    assert_eq!(world.block_id_at((5, 3, 6)), Some(100));
}

fn chunk_packet(heightmaps: quartz_nbt::NbtCompound) -> ChunkData {
    let data: Vec<Byte> = one_section().into_iter().map(|b| Byte(b as i8)).collect();
    ChunkData {
        x: Int(4),
        z: Int(-1),
        bit_mask_len: VarInt(1),
        bit_mask: vec![Long(1)],
        heightmaps: NBTTag(heightmaps),
        biomes_len: VarInt(0),
        biomes: vec![],
        data_len: VarInt(data.len() as i32),
        data,
        block_entities_len: VarInt(0),
        block_entities: vec![],
    }
}

#[test]
fn chunk_needs_a_motion_blocking_long_array() {
    let mut heights = vec![0i64; 37];
    heights[0] = 12 | (13 << 9);
    let mut good = quartz_nbt::NbtCompound::new();
    good.insert("MOTION_BLOCKING", heights.clone());
    let chunk = Chunk::try_new(&chunk_packet(good)).expect("chunk");
    assert_eq!(chunk.get_coords(), (4, -1));
    assert_eq!(chunk.get_highest_block((0, 0)), 12);
    assert_eq!(chunk.get_highest_block((1, 0)), 13);
    assert_eq!(chunk.block_id_at((1, 2, 3)), 9);

    // Another name, another tag type, or too few longs: no chunk.
    let mut other_name = quartz_nbt::NbtCompound::new();
    other_name.insert("WORLD_SURFACE", heights.clone());
    assert!(Chunk::try_new(&chunk_packet(other_name)).is_none());
    let mut ints = quartz_nbt::NbtCompound::new();
    ints.insert("MOTION_BLOCKING", vec![0i32; 37]);
    assert!(Chunk::try_new(&chunk_packet(ints)).is_none());
    let mut short = quartz_nbt::NbtCompound::new();
    short.insert("MOTION_BLOCKING", vec![0i64; 36]);
    assert!(Chunk::try_new(&chunk_packet(short)).is_none());
    assert!(Chunk::try_new(&chunk_packet(quartz_nbt::NbtCompound::new())).is_none());
}
