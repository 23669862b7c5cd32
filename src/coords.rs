//! Chunk addressing: the linear chunk index and the 3D chunk coordinate.

use vstd::prelude::*;

verus! {

/// Chunks along the x axis of the world grid.
pub const CHUNKS_X: usize = 16;

/// Chunks along the y axis of the world grid.
pub const CHUNKS_Y: usize = 16;

/// Chunks along the z axis of the world grid.
pub const CHUNKS_Z: usize = 16;

/// Chunk slots in the world grid.
pub const CHUNK_COUNT: usize = CHUNKS_X * CHUNKS_Y * CHUNKS_Z;

/// Voxels along each edge of a chunk.
pub const CHUNK_SIZE: usize = 16;

/// Voxels in one chunk.
pub const CHUNK_VOL: usize = CHUNK_SIZE * CHUNK_SIZE * CHUNK_SIZE;

/// Voxels in the whole world: `CHUNK_VOL * CHUNK_COUNT`.
pub const VOXEL_COUNT: usize = 16777216;

/// Bytes in one voxel code.
pub const WORD_BYTES: usize = 4;

/// Byte offset of the per-chunk "filled" flags in the world buffer: they follow
/// the voxel region, `VOXEL_COUNT * WORD_BYTES`.
pub const FILLED_CHUNKS_MEM_OFFSET: usize = 67108864;

/// An unsigned chunk coordinate.
#[derive(Clone, Copy, Debug, PartialEq, Eq, Structural, Hash)]
pub struct ChunkPos {
    pub x: u32,
    pub y: u32,
    pub z: u32,
}

impl ChunkPos {
    pub fn new(x: u32, y: u32, z: u32) -> (r: ChunkPos)
        ensures
            r == (ChunkPos { x, y, z }),
    {
        ChunkPos { x, y, z }
    }

    /// Every component lies inside the grid.
    pub open spec fn in_grid(self) -> bool {
        &&& self.x < CHUNKS_X
        &&& self.y < CHUNKS_Y
        &&& self.z < CHUNKS_Z
    }
}

/// The linear index of a coordinate: x fastest, then y, then z.
pub open spec fn index_of(x: int, y: int, z: int) -> int {
    x + y * CHUNKS_X + z * CHUNKS_X * CHUNKS_Y
}

/// `index_of` on a chunk coordinate.
pub open spec fn position_index(p: ChunkPos) -> int {
    index_of(p.x as int, p.y as int, p.z as int)
}

/// The coordinate of a linear index.
pub open spec fn index_position(i: int) -> ChunkPos {
    ChunkPos {
        x: (i % CHUNKS_X as int) as u32,
        y: ((i / CHUNKS_X as int) % CHUNKS_Y as int) as u32,
        z: (i / CHUNKS_X as int / CHUNKS_Y as int) as u32,
    }
}

/// The coordinate of chunk slot `index`.
pub fn chunk_index_to_position(index: usize) -> (p: ChunkPos)
    requires
        index < CHUNK_COUNT,
    ensures
        p == index_position(index as int),
        p.in_grid(),
        position_index(p) == index,
{
    let p = ChunkPos {
        x: (index % CHUNKS_X) as u32,
        y: ((index / CHUNKS_X) % CHUNKS_Y) as u32,
        z: (index / CHUNKS_X / CHUNKS_Y) as u32,
    };
    proof {
        lemma_index_round_trip(index as int);
    }
    p
}

/// The linear index of `pos`. Defined for every coordinate; the result is a
/// chunk slot only when it is below `CHUNK_COUNT`.
pub fn chunk_position_to_index(pos: ChunkPos) -> (r: usize)
    requires
        position_index(pos) <= usize::MAX,
    ensures
        r == position_index(pos),
{
    pos.x as usize + pos.y as usize * CHUNKS_X + pos.z as usize * CHUNKS_X * CHUNKS_Y
}

/// Turning a chunk slot into its coordinate and back gives the slot.
pub proof fn lemma_index_round_trip(i: int)
    requires
        0 <= i < CHUNK_COUNT,
    ensures
        index_position(i).in_grid(),
        position_index(index_position(i)) == i,
{
    let x = i % 16;
    let y = (i / 16) % 16;
    let z = i / 16 / 16;
    assert(x + y * 16 + z * 16 * 16 == i && 0 <= x < 16 && 0 <= y < 16 && 0 <= z < 16) by (nonlinear_arith)
        requires
            0 <= i < 4096,
            x == i % 16,
            y == (i / 16) % 16,
            z == i / 16 / 16,
    ;
}

/// Turning a coordinate of the grid into its slot and back gives the
/// coordinate.
pub proof fn lemma_position_round_trip(p: ChunkPos)
    requires
        p.in_grid(),
    ensures
        0 <= position_index(p) < CHUNK_COUNT,
        index_position(position_index(p)) == p,
{
    let (x, y, z) = (p.x as int, p.y as int, p.z as int);
    let i = x + y * 16 + z * 16 * 16;
    assert(0 <= i < 4096 && i % 16 == x && (i / 16) % 16 == y && i / 16 / 16 == z) by (nonlinear_arith)
        requires
            0 <= x < 16,
            0 <= y < 16,
            0 <= z < 16,
            i == x + y * 16 + z * 16 * 16,
    ;
}

} // verus!
