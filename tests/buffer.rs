use ctklr::buffer::{update_world, BufferWrite, WorldBuffer, WORLD_WORDS};
use ctklr::coords::{ChunkPos, CHUNK_COUNT, CHUNK_VOL, FILLED_CHUNKS_MEM_OFFSET, VOXEL_COUNT};
use ctklr::model::ChunkData;

fn block(pos: ChunkPos, fill: u32) -> ChunkData {
    ChunkData { pos, data: [fill; CHUNK_VOL] }
}

#[test]
fn buffer_size() {
    assert_eq!(WORLD_WORDS, VOXEL_COUNT + CHUNK_COUNT);
}

#[test]
fn writes_of_one_update() {
    let ws = update_world(false, &mut vec![block(ChunkPos::new(2, 3, 4), 9)]).writes;
    assert_eq!(ws.len(), 2);
    let index = 2 + 3 * 16 + 4 * 256;
    match ws[0] {
        BufferWrite::Chunk { offset, data } => {
            assert_eq!(offset, index * CHUNK_VOL * 4);
            assert_eq!(data, [9; CHUNK_VOL]);
        }
        _ => panic!("expected the chunk's codes"),
    }
    match ws[1] {
        BufferWrite::Word { offset, value } => {
            assert_eq!(offset, FILLED_CHUNKS_MEM_OFFSET + index * 4);
            assert_eq!(value, 1);
        }
        _ => panic!("expected the chunk's flag"),
    }
}

#[test]
fn clear_leads_and_outside_updates_drop() {
    let mut batch = vec![block(ChunkPos::new(16, 0, 0), 1), block(ChunkPos::new(0, 0, 0), 2), block(ChunkPos::new(0, 0, 99), 3)];
    let sync = update_world(true, &mut batch);
    assert!(batch.is_empty());
    assert_eq!(sync.dropped, vec![0, 2]);
    let ws = sync.writes;
    assert_eq!(ws.len(), 3);
    assert!(matches!(ws[0], BufferWrite::Clear));
    assert!(matches!(ws[1], BufferWrite::Chunk { offset: 0, .. }));
    assert!(matches!(ws[2], BufferWrite::Word { offset: FILLED_CHUNKS_MEM_OFFSET, value: 1 }));
    assert!(update_world(false, &mut Vec::new()).writes.is_empty());
    assert!(update_world(false, &mut Vec::new()).dropped.is_empty());
}

#[test]
fn last_write_wins_in_a_batch() {
    let p = ChunkPos::new(1, 2, 3);
    let index = 1 + 2 * 16 + 3 * 256;
    let ws = update_world(false, &mut vec![block(p, 11), block(p, 22)]).writes;
    let mut buf = WorldBuffer::new();
    buf.apply_all(&ws);
    for j in 0..CHUNK_VOL {
        assert_eq!(buf.word(index * CHUNK_VOL + j), 22);
    }
    assert_eq!(buf.word(VOXEL_COUNT + index), 1);
    assert_eq!(buf.word(VOXEL_COUNT + index + 1), 0);
    assert_eq!(buf.word(index * CHUNK_VOL - 1), 0);
    assert_eq!(buf.word((index + 1) * CHUNK_VOL), 0);
}

#[test]
fn clear_completes_before_placements() {
    let old = ChunkPos::new(0, 0, 0);
    let new = ChunkPos::new(5, 0, 0);
    let mut buf = WorldBuffer::new();
    buf.apply_all(&update_world(false, &mut vec![block(old, 3)]).writes);
    assert_eq!(buf.word(0), 3);
    assert_eq!(buf.word(VOXEL_COUNT), 1);
    buf.apply_all(&update_world(true, &mut vec![block(new, 4)]).writes);
    assert_eq!(buf.word(0), 0);
    assert_eq!(buf.word(CHUNK_VOL - 1), 0);
    assert_eq!(buf.word(VOXEL_COUNT), 0);
    assert_eq!(buf.word(5 * CHUNK_VOL), 4);
    assert_eq!(buf.word(VOXEL_COUNT + 5), 1);
}

#[test]
fn writes_past_the_end_are_cut() {
    let mut buf = WorldBuffer::new();
    buf.apply(&BufferWrite::Word { offset: WORLD_WORDS * 4, value: 5 });
    buf.apply(&BufferWrite::Chunk { offset: (WORLD_WORDS - 2) * 4, data: [6; CHUNK_VOL] });
    assert_eq!(buf.word(WORLD_WORDS - 1), 6);
    assert_eq!(buf.word(WORLD_WORDS - 2), 6);
    assert_eq!(buf.word(WORLD_WORDS - 3), 0);
}
