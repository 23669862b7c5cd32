use ctklr::coords::{
    chunk_index_to_position, chunk_position_to_index, ChunkPos, CHUNK_COUNT, CHUNK_VOL,
    FILLED_CHUNKS_MEM_OFFSET, VOXEL_COUNT,
};

#[test]
fn grid_constants() {
    assert_eq!(CHUNK_COUNT, 4096);
    assert_eq!(CHUNK_VOL, 4096);
    assert_eq!(VOXEL_COUNT, CHUNK_VOL * CHUNK_COUNT);
    assert_eq!(FILLED_CHUNKS_MEM_OFFSET, VOXEL_COUNT * 4);
}

#[test]
fn index_to_position_examples() {
    assert_eq!(chunk_index_to_position(0), ChunkPos::new(0, 0, 0));
    assert_eq!(chunk_index_to_position(1), ChunkPos::new(1, 0, 0));
    assert_eq!(chunk_index_to_position(16), ChunkPos::new(0, 1, 0));
    assert_eq!(chunk_index_to_position(256), ChunkPos::new(0, 0, 1));
    assert_eq!(chunk_index_to_position(4095), ChunkPos::new(15, 15, 15));
    assert_eq!(chunk_index_to_position(2 + 3 * 16 + 4 * 256), ChunkPos::new(2, 3, 4));
}

#[test]
fn position_to_index_examples() {
    assert_eq!(chunk_position_to_index(ChunkPos::new(0, 0, 0)), 0);
    assert_eq!(chunk_position_to_index(ChunkPos::new(15, 15, 15)), 4095);
    assert_eq!(chunk_position_to_index(ChunkPos::new(2, 3, 4)), 1074);
    // defined past the grid too
    assert_eq!(chunk_position_to_index(ChunkPos::new(16, 0, 0)), 16);
    assert_eq!(chunk_position_to_index(ChunkPos::new(0, 0, 16)), 4096);
}

#[test]
fn index_round_trip_over_grid() {
    for i in 0..CHUNK_COUNT {
        assert_eq!(chunk_position_to_index(chunk_index_to_position(i)), i);
    }
}

#[test]
fn position_round_trip_over_grid() {
    for x in 0..16u32 {
        for y in 0..16u32 {
            for z in 0..16u32 {
                let p = ChunkPos::new(x, y, z);
                assert_eq!(chunk_index_to_position(chunk_position_to_index(p)), p);
            }
        }
    }
}
