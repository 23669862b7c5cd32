//! Models: voxel data bucketed into chunk-sized blocks, built from the voxels
//! of a `.vox` file and an effect table.

use vstd::prelude::*;
use std::collections::HashMap;
use crate::coords::{ChunkPos, CHUNK_SIZE, CHUNK_VOL};
use crate::pec::{PecError, parse_pec, pec_table};
use crate::voxel::{encode_voxel, voxel_code};
use crate::vox::{read_vox, vox_frames_fit, vox_frames_checked, vox_models};

verus! {

/// One chunk of voxel codes at a chunk coordinate.
#[derive(Clone, Copy)]
pub struct ChunkData {
    pub pos: ChunkPos,
    pub data: [u32; CHUNK_VOL],
}

/// A set of chunk blocks placed relative to each other.
pub struct Model {
    pub voxels: Vec<ChunkData>,
}

/// A voxel of a `.vox` model: its position, with z pointing up, and its
/// palette color index.
#[derive(Clone, Copy, Debug, PartialEq, Eq, Structural)]
pub struct VoxVoxel {
    pub x: u8,
    pub y: u8,
    pub z: u8,
    pub color_index: u8,
}

/// Why a model could not be loaded.
#[derive(Clone, Copy, Debug, PartialEq, Eq, Structural)]
pub enum LoadError {
    /// The effect table has a malformed line.
    Pec,
    /// The `.vox` data could not be parsed.
    Vox,
    /// The `.vox` data holds no model.
    NoModel,
}

impl Model {
    pub fn new() -> (r: Model)
        ensures
            r.voxels@.len() == 0,
    {
        Model { voxels: Vec::new() }
    }
}

/// The chunk that holds a voxel; the `.vox` z axis becomes the world y axis.
pub open spec fn voxel_chunk(v: VoxVoxel) -> ChunkPos {
    ChunkPos {
        x: (v.x / 16) as u32,
        y: (v.z / 16) as u32,
        z: (v.y / 16) as u32,
    }
}

/// The slot of a voxel within its chunk.
pub open spec fn voxel_slot(v: VoxVoxel) -> int {
    (v.x % 16) as int + (v.z % 16) as int * 16 + (v.y % 16) as int * 256
}

/// The modifier bits that an effect table gives a color index.
pub open spec fn effect_of(effects: Map<u8, u32>, color: u8) -> u32 {
    if effects.contains_key(color) {
        effects[color]
    } else {
        0
    }
}

/// The chunks that the voxels touch, each once, in order of first
/// appearance.
pub open spec fn touched_chunks(vs: Seq<VoxVoxel>) -> Seq<ChunkPos>
    decreases vs.len(),
{
    if vs.len() == 0 {
        Seq::empty()
    } else {
        let prev = touched_chunks(vs.drop_last());
        let c = voxel_chunk(vs.last());
        if prev.contains(c) {
            prev
        } else {
            prev.push(c)
        }
    }
}

/// The codes of chunk `c`: zero where no voxel lies, and the code of the last
/// voxel at each filled slot.
pub open spec fn chunk_contents(vs: Seq<VoxVoxel>, c: ChunkPos, effects: Map<u8, u32>) -> Seq<u32>
    decreases vs.len(),
{
    if vs.len() == 0 {
        Seq::new(CHUNK_VOL as nat, |i: int| 0u32)
    } else {
        let prev = chunk_contents(vs.drop_last(), c, effects);
        let v = vs.last();
        if voxel_chunk(v) == c {
            prev.update(voxel_slot(v), voxel_code(v.color_index, effect_of(effects, v.color_index)))
        } else {
            prev
        }
    }
}

/// A model is built from `vs`: one block per touched chunk, in order of first
/// appearance, each holding that chunk's contents.
pub open spec fn model_of(m: Seq<ChunkData>, vs: Seq<VoxVoxel>, effects: Map<u8, u32>) -> bool {
    &&& m.len() == touched_chunks(vs).len()
    &&& forall|k: int|
        0 <= k < m.len() ==> m[k].pos == touched_chunks(vs)[k] && m[k].data@ == chunk_contents(
            vs,
            touched_chunks(vs)[k],
            effects,
        )
}

proof fn lemma_contents_len(vs: Seq<VoxVoxel>, c: ChunkPos, effects: Map<u8, u32>)
    ensures
        chunk_contents(vs, c, effects).len() == CHUNK_VOL,
    decreases vs.len(),
{
    if vs.len() > 0 {
        lemma_contents_len(vs.drop_last(), c, effects);
    }
}

fn same_pos(a: ChunkPos, b: ChunkPos) -> (r: bool)
    ensures
        r == (a == b),
{
    a.x == b.x && a.y == b.y && a.z == b.z
}

fn chunk_of(v: VoxVoxel) -> (r: ChunkPos)
    ensures
        r == voxel_chunk(v),
{
    ChunkPos {
        x: (v.x / CHUNK_SIZE as u8) as u32,
        y: (v.z / CHUNK_SIZE as u8) as u32,
        z: (v.y / CHUNK_SIZE as u8) as u32,
    }
}

fn contains_pos(list: &Vec<ChunkPos>, c: ChunkPos) -> (r: bool)
    ensures
        r == list@.contains(c),
{
    let mut i: usize = 0;
    while i < list.len()
        invariant
            i <= list.len(),
            forall|j: int| 0 <= j < i ==> list@[j] != c,
        decreases list.len() - i,
    {
        if same_pos(list[i], c) {
            return true;
        }
        i = i + 1;
    }
    false
}

/// Buckets the voxels of a model by chunk and packs each into its code, with
/// the modifier bits that `effects` gives its color index (none where it has
/// no entry).
pub fn build_model(vs: &Vec<VoxVoxel>, effects: &HashMap<u8, u32>) -> (r: Model)
    ensures
        model_of(r.voxels@, vs@, effects@),
{
    let mut chunks_to_load: Vec<ChunkPos> = Vec::new();
    let mut i: usize = 0;
    while i < vs.len()
        invariant
            i <= vs.len(),
            chunks_to_load@ == touched_chunks(vs@.take(i as int)),
        decreases vs.len() - i,
    {
        let c = chunk_of(vs[i]);
        assert(vs@.take(i + 1).drop_last() =~= vs@.take(i as int));
        if !contains_pos(&chunks_to_load, c) {
            chunks_to_load.push(c);
        }
        i = i + 1;
    }
    assert(vs@.take(vs.len() as int) =~= vs@);
    let mut output_model = Model::new();
    let mut k: usize = 0;
    while k < chunks_to_load.len()
        invariant
            k <= chunks_to_load.len(),
            chunks_to_load@ == touched_chunks(vs@),
            output_model.voxels@.len() == k,
            forall|j: int|
                0 <= j < k ==> output_model.voxels@[j].pos == touched_chunks(vs@)[j]
                    && output_model.voxels@[j].data@ == chunk_contents(
                    vs@,
                    touched_chunks(vs@)[j],
                    effects@,
                ),
        decreases chunks_to_load.len() - k,
    {
        let c = chunks_to_load[k];
        let mut new_data = [0u32; CHUNK_VOL];
        proof {
            lemma_contents_len(vs@.take(0), c, effects@);
        }
        assert(new_data@ =~= chunk_contents(vs@.take(0), c, effects@));
        let mut i: usize = 0;
        while i < vs.len()
            invariant
                i <= vs.len(),
                new_data@ == chunk_contents(vs@.take(i as int), c, effects@),
            decreases vs.len() - i,
        {
            let v = vs[i];
            assert(vs@.take(i + 1).drop_last() =~= vs@.take(i as int));
            proof {
                lemma_contents_len(vs@.take(i as int), c, effects@);
            }
            if same_pos(chunk_of(v), c) {
                let info: u32 = match effects.get(&v.color_index) {
                    Some(m) => *m,
                    None => 0,
                };
                let slot: usize = (v.x as usize % CHUNK_SIZE) + (v.z as usize % CHUNK_SIZE) * CHUNK_SIZE
                    + (v.y as usize % CHUNK_SIZE) * CHUNK_SIZE * CHUNK_SIZE;
                new_data[slot] = encode_voxel(v.color_index, info);
            }
            i = i + 1;
        }
        assert(vs@.take(vs.len() as int) =~= vs@);
        output_model.voxels.push(ChunkData { pos: c, data: new_data });
        k = k + 1;
    }
    output_model
}

/// A voxel tuple `(x, y, z, color index)` as a `VoxVoxel`.
pub open spec fn as_voxel(t: (u8, u8, u8, u8)) -> VoxVoxel {
    VoxVoxel { x: t.0, y: t.1, z: t.2, color_index: t.3 }
}

/// The model that the first of `models` gives under `effects`.
pub open spec fn first_model_of(m: Seq<ChunkData>, models: Seq<Seq<(u8, u8, u8, u8)>>, effects: Map<u8, u32>) -> bool {
    models.len() > 0 && model_of(m, models[0].map_values(|t: (u8, u8, u8, u8)| as_voxel(t)), effects)
}

/// Builds the model from the first of the models read from a `.vox` file;
/// fails with `NoModel` when there is none.
pub fn model_from_parts(models: &Vec<Vec<(u8, u8, u8, u8)>>, effects: &HashMap<u8, u32>) -> (r: Result<Model, LoadError>)
    ensures
        models@.len() == 0 ==> r == Err::<Model, LoadError>(LoadError::NoModel),
        models@.len() > 0 ==> r is Ok,
        r matches Ok(m) ==> first_model_of(m.voxels@, models@.map_values(|v: Vec<(u8, u8, u8, u8)>| v@), effects@),
{
    if models.len() == 0 {
        return Err(LoadError::NoModel);
    }
    let first = &models[0];
    let mut vs: Vec<VoxVoxel> = Vec::new();
    let mut i: usize = 0;
    while i < first.len()
        invariant
            i <= first.len(),
            vs@ =~= first@.take(i as int).map_values(|t: (u8, u8, u8, u8)| as_voxel(t)),
        decreases first.len() - i,
    {
        let t = first[i];
        vs.push(VoxVoxel { x: t.0, y: t.1, z: t.2, color_index: t.3 });
        i = i + 1;
    }
    assert(first@.take(first.len() as int) =~= first@);
    let ghost seqs = models@.map_values(|v: Vec<(u8, u8, u8, u8)>| v@);
    assert(seqs[0] == first@);
    Ok(build_model(&vs, effects))
}

/// Loads a model from the bytes of a `.vox` file and the text of its effect
/// table (empty where the model has none). The table is read first: a
/// malformed line fails with `Pec`. Bytes whose chunk lengths run past their
/// end, or that are not a readable `.vox` file, fail with `Vox`; a file with
/// no model fails with `NoModel`. Otherwise the model is built from the first
/// model of the file.
pub fn load_model(bytes: &[u8], pec_file: &String) -> (r: Result<Model, LoadError>)
    ensures
        match (pec_table(pec_file@), vox_models(bytes@)) {
            (None, _) => r == Err::<Model, LoadError>(LoadError::Pec),
            (Some(_), _) if !vox_frames_fit(bytes@) => r == Err::<Model, LoadError>(LoadError::Vox),
            (Some(_), None) => r == Err::<Model, LoadError>(LoadError::Vox),
            (Some(effects), Some(models)) => if models.len() == 0 {
                r == Err::<Model, LoadError>(LoadError::NoModel)
            } else {
                r matches Ok(m) && first_model_of(m.voxels@, models, effects)
            },
        },
{
    let effects = match parse_pec(pec_file) {
        Ok(m) => m,
        Err(_) => return Err(LoadError::Pec),
    };
    if !vox_frames_checked(bytes) {
        return Err(LoadError::Vox);
    }
    let models = match read_vox(bytes) {
        Some(ms) => ms,
        None => return Err(LoadError::Vox),
    };
    let ghost named = vox_models(bytes@).unwrap();
    assert(models@.map_values(|v: Vec<(u8, u8, u8, u8)>| v@) =~= named);
    model_from_parts(&models, &effects)
}

} // verus!
