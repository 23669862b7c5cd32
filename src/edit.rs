//! Editing a tiled occupancy grid at the cell a ray points to.

use vstd::prelude::*;
use crate::coords::{ChunkPos, CHUNK_COUNT, CHUNKS_X, CHUNKS_Y, CHUNKS_Z, index_of, lemma_position_round_trip};
use crate::placement::{Background, ModelHolder};
use crate::raycast::{Hit, RayPath, get_pointed_to_tile, pointed_to_tile};

verus! {

/// An edit of the occupancy grid.
#[derive(Clone, Copy, Debug, PartialEq, Eq, Structural)]
pub enum WorldChange {
    /// Empty the cell that was hit.
    Delete,
    /// Fill the cell beside the hit, across the struck face.
    Create,
}

/// The slot that a create edit fills: the hit cell moved by the face normal,
/// when every coordinate of that cell lies inside the grid. A cell across the
/// grid's edge is dropped, not wrapped.
pub open spec fn create_target(hit: Hit) -> Option<int> {
    let x = hit.pos.x + hit.normal.x;
    let y = hit.pos.y + hit.normal.y;
    let z = hit.pos.z + hit.normal.z;
    if 0 <= x < CHUNKS_X && 0 <= y < CHUNKS_Y && 0 <= z < CHUNKS_Z {
        Some(index_of(x, y, z))
    } else {
        None
    }
}

/// The grid after an edit at `hit`.
pub open spec fn edited(change: WorldChange, hit: Hit, tiles: Seq<bool>) -> Seq<bool> {
    match change {
        WorldChange::Delete => if hit.index < CHUNK_COUNT {
            tiles.update(hit.index as int, false)
        } else {
            tiles
        },
        WorldChange::Create => match create_target(hit) {
            Some(t) => tiles.update(t, true),
            None => tiles,
        },
    }
}

/// Whether an edit asks for the world to be cleared before the next draw: a
/// delete does, as the emptied cell must vanish from the buffer.
pub open spec fn clears(change: WorldChange, hit: Hit) -> bool {
    change == WorldChange::Delete && hit.index < CHUNK_COUNT
}

/// Whether an edit at `hit` falls outside the grid and changes nothing: a
/// create whose target cell is off the grid, or a delete of a slot past the
/// last one.
pub open spec fn drops(change: WorldChange, hit: Hit) -> bool {
    match change {
        WorldChange::Delete => hit.index >= CHUNK_COUNT,
        WorldChange::Create => create_target(hit) is None,
    }
}

/// What an edit asks of the caller: whether the world must be cleared before
/// the redraw, and whether the edit was dropped because it fell outside the
/// grid.
#[derive(Clone, Copy, Debug, PartialEq, Eq, Structural)]
pub struct EditOutcome {
    pub clear: bool,
    pub dropped: bool,
}

fn target_slot(hit: &Hit) -> (r: Option<usize>)
    ensures
        match create_target(*hit) {
            Some(t) => r == Some(t as usize),
            None => r is None,
        },
{
    let x: i64 = hit.pos.x as i64 + hit.normal.x as i64;
    let y: i64 = hit.pos.y as i64 + hit.normal.y as i64;
    let z: i64 = hit.pos.z as i64 + hit.normal.z as i64;
    if x < 0 || x >= CHUNKS_X as i64 || y < 0 || y >= CHUNKS_Y as i64 || z < 0 || z >= CHUNKS_Z as i64 {
        return None;
    }
    proof {
        lemma_position_round_trip(ChunkPos { x: x as u32, y: y as u32, z: z as u32 });
    }
    Some((x + y * (CHUNKS_X as i64) + z * (CHUNKS_X as i64) * (CHUNKS_Y as i64)) as usize)
}

/// Applies an edit at `hit` and marks the drawable for redrawing. Reports
/// whether the world must be cleared before the redraw, and whether the edit
/// was dropped.
pub fn apply_edit(
    change: WorldChange,
    hit: &Hit,
    filled_spots: &mut [bool; CHUNK_COUNT],
    background: &mut Background,
) -> (r: EditOutcome)
    ensures
        final(filled_spots)@ == edited(change, *hit, old(filled_spots)@),
        !final(background).has_been_drawn,
        r.clear == clears(change, *hit),
        r.dropped == drops(change, *hit),
{
    background.has_been_drawn = false;
    match change {
        WorldChange::Delete => {
            if hit.index < CHUNK_COUNT {
                filled_spots[hit.index] = false;
                EditOutcome { clear: true, dropped: false }
            } else {
                EditOutcome { clear: false, dropped: true }
            }
        },
        WorldChange::Create => {
            match target_slot(hit) {
                Some(t) => {
                    filled_spots[t] = true;
                    EditOutcome { clear: false, dropped: false }
                },
                None => EditOutcome { clear: false, dropped: true },
            }
        },
    }
}

/// Casts `path` into a tiled holder's grid and, on a hit, applies `change`
/// there and marks the drawable for redrawing. A static holder, or a ray that
/// hits nothing, is left as it is. Reports whether the world must be cleared
/// before the redraw, and whether the edit was dropped because it fell
/// outside the grid.
pub fn edit_world<H>(
    change: WorldChange,
    path: &RayPath,
    model: &mut ModelHolder<H>,
    background: &mut Background,
) -> (r: EditOutcome)
    requires
        path.wf(),
    ensures
        match *old(model) {
            ModelHolder::Static { .. } => *final(model) == *old(model) && *final(background)
                == *old(background) && r == (EditOutcome { clear: false, dropped: false }),
            ModelHolder::Tiled { map, filled_spots } => match pointed_to_tile(path, filled_spots@) {
                None => *final(model) == *old(model) && *final(background) == *old(background) && r
                    == (EditOutcome { clear: false, dropped: false }),
                Some(hit) => {
                    &&& *final(model) matches ModelHolder::Tiled { map: m, filled_spots: f } && m == map
                        && f@ == edited(change, hit, filled_spots@)
                    &&& !final(background).has_been_drawn
                    &&& r.clear == clears(change, hit)
                    &&& r.dropped == drops(change, hit)
                },
            },
        },
{
    match model {
        ModelHolder::Static { .. } => EditOutcome { clear: false, dropped: false },
        ModelHolder::Tiled { filled_spots, .. } => {
            match get_pointed_to_tile(path, filled_spots) {
                Some(hit) => apply_edit(change, &hit, filled_spots, background),
                None => EditOutcome { clear: false, dropped: false },
            }
        },
    }
}

/// From an empty grid, a create edit fills exactly the slot beside the hit;
/// a delete edit whose hit names that slot leaves the grid empty again.
pub proof fn lemma_create_then_delete(tiles: Seq<bool>, hit: Hit, again: Hit)
    requires
        tiles.len() == CHUNK_COUNT,
        forall|i: int| 0 <= i < CHUNK_COUNT ==> !tiles[i],
        create_target(hit) is Some,
        again.index == create_target(hit).unwrap(),
    ensures
        edited(WorldChange::Create, hit, tiles)[create_target(hit).unwrap()],
        forall|i: int|
            0 <= i < CHUNK_COUNT && i != create_target(hit).unwrap() ==> !edited(
                WorldChange::Create,
                hit,
                tiles,
            )[i],
        edited(WorldChange::Delete, again, edited(WorldChange::Create, hit, tiles)) == tiles,
{
    let t = create_target(hit).unwrap();
    let (x, y, z) = (hit.pos.x + hit.normal.x, hit.pos.y + hit.normal.y, hit.pos.z + hit.normal.z);
    lemma_position_round_trip(ChunkPos { x: x as u32, y: y as u32, z: z as u32 });
    assert(0 <= t < CHUNK_COUNT);
    assert(edited(WorldChange::Delete, again, edited(WorldChange::Create, hit, tiles)) =~= tiles);
}

} // verus!
