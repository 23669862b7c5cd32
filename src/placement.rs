//! Placing models in the world: a static model at an origin chunk, or one
//! single-chunk model repeated over an occupancy grid.

use vstd::prelude::*;
use crate::coords::{
    ChunkPos, CHUNK_VOL, CHUNK_COUNT, CHUNKS_X, CHUNKS_Y, CHUNKS_Z, chunk_index_to_position, index_position,
};
use crate::model::{ChunkData, Model};

verus! {

/// How a drawable holds its model: placed once, or tiled over the chunk
/// slots marked in `filled_spots`. `H` is the handle the model is looked up
/// by.
pub enum ModelHolder<H> {
    Static { model: H },
    Tiled { map: H, filled_spots: [bool; CHUNK_COUNT] },
}

/// Whether a drawable's voxels are in the world buffer since its last edit.
#[derive(Clone, Copy, Debug, PartialEq, Eq, Structural)]
pub struct Background {
    pub has_been_drawn: bool,
}

/// The chunk blocks that a placement emits, and the index within the model
/// of each fragment that fell outside the grid and was dropped.
pub struct Placement {
    pub updates: Vec<ChunkData>,
    pub dropped: Vec<usize>,
}

impl<H> ModelHolder<H> {
    pub fn new_static(model: H) -> (r: Self)
        ensures
            r == (ModelHolder::Static { model }),
    {
        ModelHolder::Static { model }
    }

    /// A tiled holder with no slot filled.
    pub fn new_tiled(map: H) -> (r: Self)
        ensures
            r matches ModelHolder::Tiled { map: m, filled_spots } && m == map && forall|i: int|
                0 <= i < CHUNK_COUNT ==> !filled_spots@[i],
    {
        ModelHolder::Tiled { map, filled_spots: [false; CHUNK_COUNT] }
    }

    pub open spec fn spec_handle(&self) -> &H {
        match self {
            ModelHolder::Static { model } => model,
            ModelHolder::Tiled { map, .. } => map,
        }
    }

    /// The handle of the held model.
    pub fn handle(&self) -> (r: &H)
        ensures
            r == self.spec_handle(),
    {
        match self {
            ModelHolder::Static { model } => model,
            ModelHolder::Tiled { map, .. } => map,
        }
    }
}

impl Background {
    /// A drawable that has not been drawn yet.
    pub fn new() -> (r: Background)
        ensures
            !r.has_been_drawn,
    {
        Background { has_been_drawn: false }
    }
}

/// `p` moved by `origin` stays inside the grid.
pub open spec fn lands_in_grid(p: ChunkPos, origin: ChunkPos) -> bool {
    &&& p.x + origin.x < CHUNKS_X
    &&& p.y + origin.y < CHUNKS_Y
    &&& p.z + origin.z < CHUNKS_Z
}

pub open spec fn shifted(p: ChunkPos, origin: ChunkPos) -> ChunkPos {
    ChunkPos { x: (p.x + origin.x) as u32, y: (p.y + origin.y) as u32, z: (p.z + origin.z) as u32 }
}

/// The blocks that the fragments emit at `origin`, in order, leaving out
/// those that fall outside the grid.
pub open spec fn placed(frags: Seq<ChunkData>, origin: ChunkPos) -> Seq<ChunkData>
    decreases frags.len(),
{
    if frags.len() == 0 {
        Seq::empty()
    } else {
        let prev = placed(frags.drop_last(), origin);
        let f = frags.last();
        if lands_in_grid(f.pos, origin) {
            prev.push(ChunkData { pos: shifted(f.pos, origin), data: f.data })
        } else {
            prev
        }
    }
}

/// The indices of the fragments that fall outside the grid at `origin`.
pub open spec fn dropped_at(frags: Seq<ChunkData>, origin: ChunkPos) -> Seq<usize>
    decreases frags.len(),
{
    if frags.len() == 0 {
        Seq::empty()
    } else {
        let prev = dropped_at(frags.drop_last(), origin);
        if lands_in_grid(frags.last().pos, origin) {
            prev
        } else {
            prev.push((frags.len() - 1) as usize)
        }
    }
}

/// One block of `data` at each filled slot among the first `n`, in slot
/// order.
pub open spec fn tiled(filled: Seq<bool>, data: [u32; CHUNK_VOL], n: int) -> Seq<ChunkData>
    decreases n,
{
    if n <= 0 {
        Seq::empty()
    } else {
        let prev = tiled(filled, data, n - 1);
        if filled[n - 1] {
            prev.push(ChunkData { pos: index_position(n - 1), data })
        } else {
            prev
        }
    }
}

/// What a holder emits for a loaded model.
pub open spec fn drawn<H>(model: &Model, holder: &ModelHolder<H>) -> Seq<ChunkData> {
    match holder {
        ModelHolder::Static { .. } => placed(model.voxels@, ChunkPos { x: 0, y: 0, z: 0 }),
        ModelHolder::Tiled { filled_spots, .. } => tiled(filled_spots@, model.voxels@[0].data, CHUNK_COUNT as int),
    }
}

/// Places every fragment of `model` moved by `origin`. Fragments that land
/// outside the grid are dropped, not wrapped, and each is reported once.
pub fn place_static(model: &Model, origin: ChunkPos) -> (r: Placement)
    ensures
        r.updates@ == placed(model.voxels@, origin),
        r.dropped@ == dropped_at(model.voxels@, origin),
{
    let mut updates: Vec<ChunkData> = Vec::new();
    let mut dropped: Vec<usize> = Vec::new();
    let mut i: usize = 0;
    while i < model.voxels.len()
        invariant
            i <= model.voxels.len(),
            updates@ == placed(model.voxels@.take(i as int), origin),
            dropped@ == dropped_at(model.voxels@.take(i as int), origin),
        decreases model.voxels.len() - i,
    {
        let f = model.voxels[i];
        assert(model.voxels@.take(i + 1).drop_last() =~= model.voxels@.take(i as int));
        let x = f.pos.x as u64 + origin.x as u64;
        let y = f.pos.y as u64 + origin.y as u64;
        let z = f.pos.z as u64 + origin.z as u64;
        if x < CHUNKS_X as u64 && y < CHUNKS_Y as u64 && z < CHUNKS_Z as u64 {
            updates.push(ChunkData { pos: ChunkPos { x: x as u32, y: y as u32, z: z as u32 }, data: f.data });
        } else {
            dropped.push(i);
        }
        i = i + 1;
    }
    assert(model.voxels@.take(model.voxels.len() as int) =~= model.voxels@);
    Placement { updates, dropped }
}

/// Places the model's first fragment at every filled slot, in slot order.
/// Tiled models are single-chunk: any further fragment is not used.
pub fn place_tiled(model: &Model, filled_spots: &[bool; CHUNK_COUNT]) -> (r: Vec<ChunkData>)
    requires
        model.voxels@.len() > 0,
    ensures
        r@ == tiled(filled_spots@, model.voxels@[0].data, CHUNK_COUNT as int),
{
    let data = model.voxels[0].data;
    let mut output: Vec<ChunkData> = Vec::new();
    let mut index: usize = 0;
    while index < CHUNK_COUNT
        invariant
            index <= CHUNK_COUNT,
            data == model.voxels@[0].data,
            output@ == tiled(filled_spots@, data, index as int),
        decreases CHUNK_COUNT - index,
    {
        if filled_spots[index] {
            let tiled_pos = chunk_index_to_position(index);
            output.push(ChunkData { pos: tiled_pos, data });
        }
        index = index + 1;
    }
    output
}

/// The blocks that a holder emits for its model, if the model is loaded: a
/// static model at the grid origin, a tiled one over its filled slots.
pub fn draw_model<H>(possible_model: Option<&Model>, model_holder: &ModelHolder<H>) -> (r: Vec<ChunkData>)
    requires
        possible_model is Some && model_holder is Tiled ==> possible_model.unwrap().voxels@.len() > 0,
    ensures
        match possible_model {
            None => r@.len() == 0,
            Some(m) => r@ == drawn(m, model_holder),
        },
{
    let model = match possible_model {
        Some(loaded_model) => loaded_model,
        None => return Vec::new(),
    };
    match model_holder {
        ModelHolder::Static { .. } => place_static(model, ChunkPos { x: 0, y: 0, z: 0 }).updates,
        ModelHolder::Tiled { filled_spots, .. } => place_tiled(model, filled_spots),
    }
}

/// The draw pass of one drawable: a drawable not yet drawn whose model is
/// loaded appends its blocks to `world_updates` and is marked drawn; any
/// other is left as it is.
pub fn draw<H>(
    model_holder: &ModelHolder<H>,
    background: &mut Background,
    model: Option<&Model>,
    world_updates: &mut Vec<ChunkData>,
)
    requires
        model is Some && model_holder is Tiled ==> model.unwrap().voxels@.len() > 0,
    ensures
        match model {
            Some(m) => if old(background).has_been_drawn {
                *final(background) == *old(background) && final(world_updates)@ == old(world_updates)@
            } else {
                final(background).has_been_drawn && final(world_updates)@ == old(world_updates)@ + drawn(m, model_holder)
            },
            None => *final(background) == *old(background) && final(world_updates)@ == old(world_updates)@,
        },
{
    if background.has_been_drawn {
        return;
    }
    let loaded = match model {
        Some(m) => m,
        None => return,
    };
    background.has_been_drawn = true;
    let mut drawn = draw_model(Some(loaded), model_holder);
    world_updates.append(&mut drawn);
}

} // verus!
