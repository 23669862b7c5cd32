//! Random tile maps: filling slots of a tiled holder at drawn positions.

use vstd::prelude::*;
use rand::Rng;
use crate::coords::CHUNK_COUNT;
use crate::placement::{Background, ModelHolder};

verus! {

/// Positions drawn for one random tile map.
pub const RANDOM_TILES: usize = 99;

/// Relies on `rand::Rng::gen_range` over the thread-local generator: it
/// returns a value of the half-open range `0..n`, and panics only when the
/// range is empty.
#[verifier::external_body]
fn random_below(n: usize) -> (r: usize)
    requires
        n > 0,
    ensures
        r < n,
{
    rand::thread_rng().gen_range(0..n)
}

/// The grid with the slots at `positions` filled; positions past the last
/// slot are ignored.
pub open spec fn with_filled(tiles: Seq<bool>, positions: Seq<usize>) -> Seq<bool>
    decreases positions.len(),
{
    if positions.len() == 0 {
        tiles
    } else {
        let prev = with_filled(tiles, positions.drop_last());
        if positions.last() < CHUNK_COUNT {
            prev.update(positions.last() as int, true)
        } else {
            prev
        }
    }
}

/// A grid with no slot filled.
pub open spec fn empty_grid() -> Seq<bool> {
    Seq::new(CHUNK_COUNT as nat, |i: int| false)
}

/// Fills the slots at `positions`, in order; positions past the last slot
/// are ignored.
pub fn fill_slots(filled_spots: &mut [bool; CHUNK_COUNT], positions: &Vec<usize>)
    ensures
        final(filled_spots)@ == with_filled(old(filled_spots)@, positions@),
{
    let mut i: usize = 0;
    assert(positions@.take(0) =~= Seq::<usize>::empty());
    while i < positions.len()
        invariant
            i <= positions.len(),
            filled_spots@ == with_filled(old(filled_spots)@, positions@.take(i as int)),
        decreases positions.len() - i,
    {
        assert(positions@.take(i + 1).drop_last() =~= positions@.take(i as int));
        let p = positions[i];
        if p < CHUNK_COUNT {
            filled_spots[p] = true;
        }
        i = i + 1;
    }
    assert(positions@.take(positions.len() as int) =~= positions@);
}

/// `RANDOM_TILES` randomly drawn slot positions.
fn draw_positions() -> (r: Vec<usize>)
    ensures
        r@.len() == RANDOM_TILES,
        forall|i: int| 0 <= i < r@.len() ==> r@[i] < CHUNK_COUNT,
{
    let mut positions: Vec<usize> = Vec::new();
    while positions.len() < RANDOM_TILES
        invariant
            positions@.len() <= RANDOM_TILES,
            forall|i: int| 0 <= i < positions@.len() ==> positions@[i] < CHUNK_COUNT,
        decreases RANDOM_TILES - positions@.len(),
    {
        positions.push(random_below(CHUNK_COUNT));
    }
    positions
}

/// Fills `RANDOM_TILES` randomly drawn slots of a tiled holder and returns
/// the drawn positions; a static holder is left as it is and nothing is
/// drawn.
pub fn spawn_tilemap<H>(holder: &mut ModelHolder<H>) -> (r: Vec<usize>)
    ensures
        match *old(holder) {
            ModelHolder::Static { .. } => *final(holder) == *old(holder) && r@.len() == 0,
            ModelHolder::Tiled { map, filled_spots } => {
                &&& r@.len() == RANDOM_TILES
                &&& forall|i: int| 0 <= i < r@.len() ==> r@[i] < CHUNK_COUNT
                &&& *final(holder) matches ModelHolder::Tiled { map: m, filled_spots: f } && m == map
                    && f@ == with_filled(filled_spots@, r@)
            },
        },
{
    match holder {
        ModelHolder::Static { .. } => Vec::new(),
        ModelHolder::Tiled { filled_spots, .. } => {
            let positions = draw_positions();
            fill_slots(filled_spots, &positions);
            positions
        },
    }
}

/// Refills a tiled holder that has not been drawn yet: all slots are
/// emptied, then `RANDOM_TILES` random slots are filled, and the drawn
/// positions are returned. A drawn holder, or a static one, is left as it
/// is.
pub fn change_tilemap<H>(holder: &mut ModelHolder<H>, background: &Background) -> (r: Vec<usize>)
    ensures
        match *old(holder) {
            ModelHolder::Tiled { map, .. } if !background.has_been_drawn => {
                &&& r@.len() == RANDOM_TILES
                &&& forall|i: int| 0 <= i < r@.len() ==> r@[i] < CHUNK_COUNT
                &&& *final(holder) matches ModelHolder::Tiled { map: m, filled_spots: f } && m == map
                    && f@ == with_filled(empty_grid(), r@)
            },
            _ => *final(holder) == *old(holder) && r@.len() == 0,
        },
{
    if background.has_been_drawn {
        return Vec::new();
    }
    match holder {
        ModelHolder::Static { .. } => Vec::new(),
        ModelHolder::Tiled { filled_spots, .. } => {
            let mut i: usize = 0;
            while i < CHUNK_COUNT
                invariant
                    i <= CHUNK_COUNT,
                    forall|k: int| 0 <= k < i ==> !filled_spots@[k],
                decreases CHUNK_COUNT - i,
            {
                filled_spots[i] = false;
                i = i + 1;
            }
            assert(filled_spots@ =~= empty_grid());
            let positions = draw_positions();
            fill_slots(filled_spots, &positions);
            positions
        },
    }
}

} // verus!
