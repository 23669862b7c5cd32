//! The world buffer and the writes that keep it in step with the world.
//!
//! The buffer is a flat run of 32-bit words: the voxel codes of every chunk,
//! chunk-major, then one "filled" flag per chunk. It is written, never read
//! back: each batch of chunk updates becomes a list of writes, led by a clear
//! when the batch starts a new world.

use vstd::prelude::*;
use crate::coords::{
    ChunkPos, CHUNK_COUNT, CHUNK_VOL, FILLED_CHUNKS_MEM_OFFSET, VOXEL_COUNT, WORD_BYTES,
    chunk_position_to_index, lemma_position_round_trip, position_index,
};
use crate::model::ChunkData;

verus! {

/// Words in the world buffer: `VOXEL_COUNT + CHUNK_COUNT`.
pub const WORLD_WORDS: usize = 16781312;

/// One write to the world buffer. Offsets are in bytes.
#[derive(Clone, Copy)]
pub enum BufferWrite {
    /// Fill the whole buffer with zero.
    Clear,
    /// Write the voxel codes of one chunk at `offset`.
    Chunk { offset: usize, data: [u32; CHUNK_VOL] },
    /// Write one word at `offset`.
    Word { offset: usize, value: u32 },
}

/// Byte offset of the voxel codes of chunk slot `index`.
pub open spec fn voxel_offset(index: int) -> int {
    index * CHUNK_VOL * WORD_BYTES
}

/// Byte offset of the filled flag of chunk slot `index`.
pub open spec fn flag_offset(index: int) -> int {
    FILLED_CHUNKS_MEM_OFFSET + index * WORD_BYTES
}

/// The buffer after one write; words past the end of the buffer are not
/// written.
pub open spec fn apply_write(buf: Seq<u32>, w: BufferWrite) -> Seq<u32> {
    match w {
        BufferWrite::Clear => Seq::new(buf.len(), |i: int| 0u32),
        BufferWrite::Chunk { offset, data } => {
            let base = offset as int / WORD_BYTES as int;
            Seq::new(
                buf.len(),
                |i: int|
                    if base <= i < base + CHUNK_VOL {
                        data@[i - base]
                    } else {
                        buf[i]
                    },
            )
        },
        BufferWrite::Word { offset, value } => {
            let at = offset as int / WORD_BYTES as int;
            Seq::new(buf.len(), |i: int| if i == at { value } else { buf[i] })
        },
    }
}

/// The buffer after a list of writes, applied in order.
pub open spec fn apply_writes(buf: Seq<u32>, ws: Seq<BufferWrite>) -> Seq<u32>
    decreases ws.len(),
{
    if ws.len() == 0 {
        buf
    } else {
        apply_write(apply_writes(buf, ws.drop_last()), ws.last())
    }
}

/// The writes of one chunk update: its voxel codes and its filled flag, or
/// nothing when its coordinate is outside the grid.
pub open spec fn update_writes(u: ChunkData) -> Seq<BufferWrite> {
    if u.pos.in_grid() {
        let index = position_index(u.pos);
        seq![
            BufferWrite::Chunk { offset: voxel_offset(index) as usize, data: u.data },
            BufferWrite::Word { offset: flag_offset(index) as usize, value: 1 },
        ]
    } else {
        Seq::empty()
    }
}

/// The writes of a batch of updates, in order.
pub open spec fn batch_writes(us: Seq<ChunkData>) -> Seq<BufferWrite>
    decreases us.len(),
{
    if us.len() == 0 {
        Seq::empty()
    } else {
        batch_writes(us.drop_last()) + update_writes(us.last())
    }
}

/// The writes of one synchronization: a clear first when asked for, then the
/// writes of every update.
pub open spec fn sync_writes(clear: bool, us: Seq<ChunkData>) -> Seq<BufferWrite> {
    if clear {
        seq![BufferWrite::Clear] + batch_writes(us)
    } else {
        batch_writes(us)
    }
}

/// The codes of the last update of the batch at `p`, if any.
pub open spec fn last_update_at(us: Seq<ChunkData>, p: ChunkPos) -> Option<[u32; CHUNK_VOL]>
    decreases us.len(),
{
    if us.len() == 0 {
        None
    } else if us.last().pos == p {
        Some(us.last().data)
    } else {
        last_update_at(us.drop_last(), p)
    }
}

/// The positions in a batch of the updates outside the grid, in order.
pub open spec fn dropped_updates(us: Seq<ChunkData>) -> Seq<usize>
    decreases us.len(),
{
    if us.len() == 0 {
        Seq::empty()
    } else if us.last().pos.in_grid() {
        dropped_updates(us.drop_last())
    } else {
        dropped_updates(us.drop_last()).push((us.len() - 1) as usize)
    }
}

/// The writes of one synchronization, and the position in the batch of each
/// update that was dropped because it lies outside the grid.
pub struct WorldSync {
    pub writes: Vec<BufferWrite>,
    pub dropped: Vec<usize>,
}

/// The writes that bring the world buffer up to date with a batch of chunk
/// updates: a clear first when `clear` is set, then for each update, in
/// order, its voxel codes and its filled flag. An update outside the grid
/// makes no write and is reported in `dropped`. The batch is consumed: it is
/// left empty.
pub fn update_world(clear: bool, world_updates: &mut Vec<ChunkData>) -> (r: WorldSync)
    ensures
        r.writes@ == sync_writes(clear, old(world_updates)@),
        r.dropped@ == dropped_updates(old(world_updates)@),
        final(world_updates)@.len() == 0,
{
    let mut dropped: Vec<usize> = Vec::new();
    let mut writes: Vec<BufferWrite> = Vec::new();
    if clear {
        writes.push(BufferWrite::Clear);
    }
    let ghost lead = writes@;
    let mut i: usize = 0;
    assert(batch_writes(world_updates@.take(0)) =~= Seq::<BufferWrite>::empty());
    assert(writes@ =~= lead + batch_writes(world_updates@.take(0)));
    while i < world_updates.len()
        invariant
            i <= world_updates.len(),
            lead == (if clear { seq![BufferWrite::Clear] } else { Seq::<BufferWrite>::empty() }),
            writes@ == lead + batch_writes(world_updates@.take(i as int)),
            dropped@ == dropped_updates(world_updates@.take(i as int)),
        decreases world_updates.len() - i,
    {
        let u = world_updates[i];
        assert(world_updates@.take(i + 1).drop_last() =~= world_updates@.take(i as int));
        assert(world_updates@.take(i + 1).last() == u);
        let ghost before = writes@;
        if u.pos.x < 16 && u.pos.y < 16 && u.pos.z < 16 {
            proof {
                lemma_position_round_trip(u.pos);
            }
            let index = chunk_position_to_index(u.pos);
            assert(index * CHUNK_VOL * WORD_BYTES < 67108864) by (nonlinear_arith)
                requires
                    index < 4096,
            ;
            writes.push(BufferWrite::Chunk { offset: index * CHUNK_VOL * WORD_BYTES, data: u.data });
            writes.push(BufferWrite::Word { offset: FILLED_CHUNKS_MEM_OFFSET + index * WORD_BYTES, value: 1 });
            assert(writes@ =~= before + update_writes(u));
        } else {
            dropped.push(i);
            assert(writes@ =~= before + update_writes(u));
        }
        i = i + 1;
    }
    assert(world_updates@.take(world_updates.len() as int) =~= world_updates@);
    assert(writes@ =~= sync_writes(clear, world_updates@));
    world_updates.clear();
    WorldSync { writes, dropped }
}

proof fn lemma_apply_len(buf: Seq<u32>, ws: Seq<BufferWrite>)
    ensures
        apply_writes(buf, ws).len() == buf.len(),
    decreases ws.len(),
{
    if ws.len() > 0 {
        lemma_apply_len(buf, ws.drop_last());
    }
}

proof fn lemma_apply_concat(buf: Seq<u32>, a: Seq<BufferWrite>, c: Seq<BufferWrite>)
    ensures
        apply_writes(buf, a + c) == apply_writes(apply_writes(buf, a), c),
    decreases c.len(),
{
    if c.len() == 0 {
        assert(a + c =~= a);
    } else {
        assert((a + c).drop_last() =~= a + c.drop_last());
        assert((a + c).last() == c.last());
        lemma_apply_concat(buf, a, c.drop_last());
    }
}

proof fn lemma_clear_led(b1: Seq<u32>, b2: Seq<u32>, ws: Seq<BufferWrite>)
    requires
        b1.len() == b2.len(),
        ws.len() > 0,
        ws[0] is Clear,
    ensures
        apply_writes(b1, ws) == apply_writes(b2, ws),
    decreases ws.len(),
{
    if ws.len() == 1 {
        assert(ws.drop_last() =~= Seq::<BufferWrite>::empty());
        assert(apply_writes(b1, ws.drop_last()) == b1);
        assert(apply_writes(b2, ws.drop_last()) == b2);
        assert(apply_write(b1, ws[0]) =~= apply_write(b2, ws[0]));
    } else {
        assert(ws.drop_last()[0] == ws[0]);
        lemma_clear_led(b1, b2, ws.drop_last());
    }
}

proof fn lemma_batch_no_clear(us: Seq<ChunkData>)
    ensures
        forall|k: int| 0 <= k < batch_writes(us).len() ==> !(#[trigger] batch_writes(us)[k] is Clear),
    decreases us.len(),
{
    if us.len() > 0 {
        lemma_batch_no_clear(us.drop_last());
    }
}

/// A synchronization that clears starts with its one clear, and leaves the
/// buffer the same whatever it held before: nothing from before the clear
/// survives beside the new placements.
pub proof fn lemma_clear_discards_prior(b1: Seq<u32>, b2: Seq<u32>, us: Seq<ChunkData>)
    requires
        b1.len() == b2.len(),
    ensures
        sync_writes(true, us)[0] is Clear,
        forall|k: int| 0 < k < sync_writes(true, us).len() ==> !(#[trigger] sync_writes(true, us)[k] is Clear),
        apply_writes(b1, sync_writes(true, us)) == apply_writes(b2, sync_writes(true, us)),
{
    lemma_batch_no_clear(us);
    let ws = sync_writes(true, us);
    assert forall|k: int| 0 < k < ws.len() implies !(#[trigger] ws[k] is Clear) by {
        assert(ws[k] == batch_writes(us)[k - 1]);
    }
    lemma_clear_led(b1, b2, ws);
}

proof fn lemma_offsets(index: int)
    requires
        0 <= index < CHUNK_COUNT,
    ensures
        voxel_offset(index) / WORD_BYTES as int == index * CHUNK_VOL,
        flag_offset(index) / WORD_BYTES as int == VOXEL_COUNT + index,
        0 <= voxel_offset(index) <= usize::MAX,
        0 <= flag_offset(index) <= usize::MAX,
        0 <= index * CHUNK_VOL,
        index * CHUNK_VOL + CHUNK_VOL <= VOXEL_COUNT,
{
    assert(index * 4096 * 4 / 4 == index * 4096 && 0 <= index * 4096 && index * 4096 + 4096 <= 16777216
        && index * 4096 * 4 < 67108864) by (nonlinear_arith)
        requires
            0 <= index < 4096,
    ;
    assert((67108864 + index * 4) / 4 == 16777216 + index) by (nonlinear_arith)
        requires
            0 <= index < 4096,
    ;
}

proof fn lemma_slots_apart(a: int, b: int, j: int)
    requires
        0 <= a < CHUNK_COUNT,
        0 <= b < CHUNK_COUNT,
        a != b,
        0 <= j < CHUNK_VOL,
    ensures
        !(a * CHUNK_VOL <= b * CHUNK_VOL + j < a * CHUNK_VOL + CHUNK_VOL),
{
    assert(!(a * 4096 <= b * 4096 + j < a * 4096 + 4096)) by (nonlinear_arith)
        requires
            a != b,
            0 <= j < 4096,
    ;
}

/// What one chunk's words and flag hold after the writes of a batch, applied
/// to `start`.
pub open spec fn chunk_after(start: Seq<u32>, us: Seq<ChunkData>, p: ChunkPos, j: int) -> bool {
    let out = apply_writes(start, batch_writes(us));
    let index = position_index(p);
    match last_update_at(us, p) {
        Some(d) => out[index * CHUNK_VOL + j] == d@[j] && out[VOXEL_COUNT + index] == 1,
        None => out[index * CHUNK_VOL + j] == start[index * CHUNK_VOL + j] && out[VOXEL_COUNT + index]
            == start[VOXEL_COUNT + index],
    }
}

proof fn lemma_batch_chunk(start: Seq<u32>, us: Seq<ChunkData>, p: ChunkPos, j: int)
    requires
        start.len() == WORLD_WORDS,
        p.in_grid(),
        0 <= j < CHUNK_VOL,
    ensures
        chunk_after(start, us, p, j),
    decreases us.len(),
{
    lemma_position_round_trip(p);
    let ip = position_index(p);
    lemma_offsets(ip);
    if us.len() > 0 {
        let prev = us.drop_last();
        let u = us.last();
        lemma_batch_chunk(start, prev, p, j);
        lemma_apply_concat(start, batch_writes(prev), update_writes(u));
        let mid = apply_writes(start, batch_writes(prev));
        lemma_apply_len(start, batch_writes(prev));
        if u.pos.in_grid() {
            lemma_position_round_trip(u.pos);
            let iu = position_index(u.pos);
            lemma_offsets(iu);
            let ws = update_writes(u);
            assert(ws.drop_last().drop_last() =~= Seq::<BufferWrite>::empty());
            let after_chunk = apply_write(mid, ws[0]);
            assert(apply_writes(mid, ws.drop_last().drop_last()) == mid);
            assert(ws.drop_last().last() == ws[0]);
            assert(apply_writes(mid, ws.drop_last()) == after_chunk);
            assert(apply_writes(mid, ws) == apply_write(after_chunk, ws[1]));
            if u.pos != p {
                assert(iu != ip);
                lemma_slots_apart(iu, ip, j);
            }
        } else {
            assert(update_writes(u) =~= Seq::<BufferWrite>::empty());
            assert(u.pos != p);
        }
    }
}

/// After a synchronization, each chunk of the grid holds the codes of the
/// last update of the batch at its coordinate, with its filled flag set; a
/// chunk that no update names holds zero after a clear, else what it held.
pub proof fn lemma_last_write_wins(buf: Seq<u32>, clear: bool, us: Seq<ChunkData>, p: ChunkPos, j: int)
    requires
        buf.len() == WORLD_WORDS,
        p.in_grid(),
        0 <= j < CHUNK_VOL,
    ensures
        ({
            let out = apply_writes(buf, sync_writes(clear, us));
            let index = position_index(p);
            match last_update_at(us, p) {
                Some(d) => out[index * CHUNK_VOL + j] == d@[j] && out[VOXEL_COUNT + index] == 1,
                None => if clear {
                    out[index * CHUNK_VOL + j] == 0 && out[VOXEL_COUNT + index] == 0
                } else {
                    out[index * CHUNK_VOL + j] == buf[index * CHUNK_VOL + j] && out[VOXEL_COUNT + index]
                        == buf[VOXEL_COUNT + index]
                },
            }
        }),
{
    lemma_position_round_trip(p);
    lemma_offsets(position_index(p));
    if clear {
        let cleared = apply_write(buf, BufferWrite::Clear);
        assert(seq![BufferWrite::Clear].drop_last() =~= Seq::<BufferWrite>::empty());
        assert(apply_writes(buf, seq![BufferWrite::Clear].drop_last()) == buf);
        assert(apply_writes(buf, seq![BufferWrite::Clear]) == cleared);
        lemma_apply_concat(buf, seq![BufferWrite::Clear], batch_writes(us));
        lemma_batch_chunk(cleared, us, p, j);
    } else {
        lemma_batch_chunk(buf, us, p, j);
    }
}

/// A copy of the world buffer in main memory, written by the same writes as
/// the device buffer.
pub struct WorldBuffer {
    words: Vec<u32>,
}

impl View for WorldBuffer {
    type V = Seq<u32>;

    closed spec fn view(&self) -> Seq<u32> {
        self.words@
    }
}

impl WorldBuffer {
    /// A buffer of `WORLD_WORDS` zero words.
    pub fn new() -> (r: WorldBuffer)
        ensures
            r@ == Seq::new(WORLD_WORDS as nat, |i: int| 0u32),
    {
        let mut words: Vec<u32> = Vec::new();
        let mut i: usize = 0;
        while i < WORLD_WORDS
            invariant
                i <= WORLD_WORDS,
                words@ =~= Seq::new(i as nat, |k: int| 0u32),
            decreases WORLD_WORDS - i,
        {
            words.push(0);
            i = i + 1;
        }
        WorldBuffer { words }
    }

    /// The word at `i`.
    pub fn word(&self, i: usize) -> (r: u32)
        requires
            i < self@.len(),
        ensures
            r == self@[i as int],
    {
        self.words[i]
    }

    /// Performs one write.
    pub fn apply(&mut self, w: &BufferWrite)
        ensures
            final(self)@ == apply_write(old(self)@, *w),
    {
        let len = self.words.len();
        match w {
            BufferWrite::Clear => {
                let mut i: usize = 0;
                while i < len
                    invariant
                        len == self.words@.len(),
                        i <= len,
                        forall|k: int| 0 <= k < i ==> self.words@[k] == 0,
                    decreases len - i,
                {
                    self.words.set(i, 0);
                    i = i + 1;
                }
                assert(self.words@ =~= apply_write(old(self)@, *w));
            },
            BufferWrite::Chunk { offset, data } => {
                let base = *offset / WORD_BYTES;
                let mut j: usize = 0;
                while j < CHUNK_VOL
                    invariant
                        len == self.words@.len() == old(self)@.len(),
                        base == *offset as int / WORD_BYTES as int,
                        j <= CHUNK_VOL,
                        forall|k: int|
                            0 <= k < len ==> self.words@[k] == (if base <= k < base + j {
                                data@[k - base]
                            } else {
                                old(self)@[k]
                            }),
                    decreases CHUNK_VOL - j,
                {
                    if base + j < len {
                        self.words.set(base + j, data[j]);
                    }
                    j = j + 1;
                }
                assert(self.words@ =~= apply_write(old(self)@, *w));
            },
            BufferWrite::Word { offset, value } => {
                let at = *offset / WORD_BYTES;
                if at < len {
                    self.words.set(at, *value);
                }
                assert(self.words@ =~= apply_write(old(self)@, *w));
            },
        }
    }

    /// Performs a list of writes in order.
    pub fn apply_all(&mut self, ws: &Vec<BufferWrite>)
        ensures
            final(self)@ == apply_writes(old(self)@, ws@),
    {
        let mut i: usize = 0;
        assert(ws@.take(0) =~= Seq::<BufferWrite>::empty());
        while i < ws.len()
            invariant
                i <= ws.len(),
                self@ == apply_writes(old(self)@, ws@.take(i as int)),
            decreases ws.len() - i,
        {
            assert(ws@.take(i + 1).drop_last() =~= ws@.take(i as int));
            self.apply(&ws[i]);
            i = i + 1;
        }
        assert(ws@.take(ws.len() as int) =~= ws@);
    }
}

} // verus!
