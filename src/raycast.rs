//! Grid ray walking: the integer half of the DDA picker.
//!
//! The floating-point half (ray direction, per-axis step lengths and the
//! choice of the axis to advance at each step) depends only on the camera and
//! the cursor, never on the grid. It is handed in as a `RayPath`; the walk
//! through the occupancy grid happens here.

use vstd::prelude::*;
use crate::coords::{CHUNK_COUNT, CHUNKS_X, CHUNKS_Y, CHUNKS_Z, index_of};

verus! {

/// Steps a ray may take before the search gives up.
pub const EDIT_RAYCAST_DIST: usize = 100;

/// A grid axis.
#[derive(Clone, Copy, Debug, PartialEq, Eq, Structural)]
pub enum Axis {
    X,
    Y,
    Z,
}

/// A signed grid vector.
#[derive(Clone, Copy, Debug, PartialEq, Eq, Structural)]
pub struct GridVec {
    pub x: i32,
    pub y: i32,
    pub z: i32,
}

/// The first filled cell along a ray.
#[derive(Clone, Copy, Debug, PartialEq, Eq, Structural)]
pub struct Hit {
    /// Linear index of the cell.
    pub index: usize,
    /// Chunk coordinate of the cell.
    pub pos: GridVec,
    /// The face that was struck: minus the step direction on the axis that
    /// was advanced last, zero on the others.
    pub normal: GridVec,
}

/// A ray through the grid: the cell holding its origin, the sign (1 or -1)
/// of each component of its direction, and the axis advanced at each step.
pub struct RayPath {
    pub start: GridVec,
    pub step: GridVec,
    pub axes: Vec<Axis>,
}

/// A cell coordinate as exact integers.
pub struct Cell {
    pub x: int,
    pub y: int,
    pub z: int,
}

impl GridVec {
    /// Every component is 1 or -1.
    pub open spec fn is_sign(self) -> bool {
        &&& (self.x == 1 || self.x == -1)
        &&& (self.y == 1 || self.y == -1)
        &&& (self.z == 1 || self.z == -1)
    }

    /// One component is 1 or -1, the others 0.
    pub open spec fn is_unit(self) -> bool {
        ||| (self.x == 1 || self.x == -1) && self.y == 0 && self.z == 0
        ||| self.x == 0 && (self.y == 1 || self.y == -1) && self.z == 0
        ||| self.x == 0 && self.y == 0 && (self.z == 1 || self.z == -1)
    }

    /// Every component lies inside the grid.
    pub open spec fn in_grid(self) -> bool {
        &&& 0 <= self.x < CHUNKS_X
        &&& 0 <= self.y < CHUNKS_Y
        &&& 0 <= self.z < CHUNKS_Z
    }

    pub open spec fn cell(self) -> Cell {
        Cell { x: self.x as int, y: self.y as int, z: self.z as int }
    }
}

impl RayPath {
    pub open spec fn wf(&self) -> bool {
        self.step.is_sign()
    }

    /// The axis choices within the step budget.
    pub open spec fn budget(&self) -> Seq<Axis> {
        if self.axes@.len() <= EDIT_RAYCAST_DIST {
            self.axes@
        } else {
            self.axes@.take(EDIT_RAYCAST_DIST as int)
        }
    }
}

/// `cell` moved one unit along `axis` in the direction of `step`.
pub open spec fn advance(cell: Cell, step: GridVec, axis: Axis) -> Cell {
    match axis {
        Axis::X => Cell { x: cell.x + step.x, ..cell },
        Axis::Y => Cell { y: cell.y + step.y, ..cell },
        Axis::Z => Cell { z: cell.z + step.z, ..cell },
    }
}

/// Every coordinate of a cell lies inside the grid.
pub open spec fn cell_in_grid(c: Cell) -> bool {
    &&& 0 <= c.x < CHUNKS_X
    &&& 0 <= c.y < CHUNKS_Y
    &&& 0 <= c.z < CHUNKS_Z
}

/// The face normal after advancing along `axis`.
pub open spec fn normal_of(step: GridVec, axis: Axis) -> GridVec {
    match axis {
        Axis::X => GridVec { x: (-step.x) as i32, y: 0, z: 0 },
        Axis::Y => GridVec { x: 0, y: (-step.y) as i32, z: 0 },
        Axis::Z => GridVec { x: 0, y: 0, z: (-step.z) as i32 },
    }
}

/// Single-axis steps between a cell and a grid position.
pub open spec fn steps_between(c: Cell, p: GridVec) -> int {
    let dx = if p.x >= c.x { p.x - c.x } else { c.x - p.x };
    let dy = if p.y >= c.y { p.y - c.y } else { c.y - p.y };
    let dz = if p.z >= c.z { p.z - c.z } else { c.z - p.z };
    dx + dy + dz
}

/// The walk from `cell`: each step advances one axis. A step whose linear
/// index falls outside `[0, CHUNK_COUNT)` ends the walk with no hit. A cell of
/// the grid that is filled ends it with a hit. Any other cell, including one
/// off the grid whose index is still in range, is passed without being read.
pub open spec fn walk(tiles: Seq<bool>, cell: Cell, step: GridVec, axes: Seq<Axis>) -> Option<Hit>
    decreases axes.len(),
{
    if axes.len() == 0 {
        None
    } else {
        let next = advance(cell, step, axes[0]);
        let i = index_of(next.x, next.y, next.z);
        if i < 0 || i >= CHUNK_COUNT {
            None
        } else if cell_in_grid(next) && tiles[i] {
            Some(
                Hit {
                    index: i as usize,
                    pos: GridVec { x: next.x as i32, y: next.y as i32, z: next.z as i32 },
                    normal: normal_of(step, axes[0]),
                },
            )
        } else {
            walk(tiles, next, step, axes.drop_first())
        }
    }
}

/// The first filled cell along `path`, within the step budget.
pub open spec fn pointed_to_tile(path: &RayPath, tiles: Seq<bool>) -> Option<Hit> {
    walk(tiles, path.start.cell(), path.step, path.budget())
}

/// A hit of a walk from `cell` over `n` steps: a filled cell of the grid,
/// read at its own index, struck on one face, and at most `n` steps away.
pub open spec fn sound_hit(tiles: Seq<bool>, cell: Cell, n: int, h: Hit) -> bool {
    &&& h.pos.in_grid()
    &&& h.index == index_of(h.pos.x as int, h.pos.y as int, h.pos.z as int)
    &&& h.index < CHUNK_COUNT
    &&& tiles[h.index as int]
    &&& h.normal.is_unit()
    &&& steps_between(cell, h.pos) <= n
}

proof fn lemma_index_in_grid(x: int, y: int, z: int)
    requires
        0 <= x < 16,
        0 <= y < 16,
        0 <= z < 16,
    ensures
        0 <= index_of(x, y, z) < CHUNK_COUNT,
{
    assert(0 <= x + y * 16 + z * 16 * 16 < 4096) by (nonlinear_arith)
        requires
            0 <= x < 16,
            0 <= y < 16,
            0 <= z < 16,
    ;
}

proof fn lemma_walk_sound(tiles: Seq<bool>, cell: Cell, step: GridVec, axes: Seq<Axis>)
    requires
        step.is_sign(),
    ensures
        walk(tiles, cell, step, axes) matches Some(h) ==> sound_hit(tiles, cell, axes.len() as int, h),
    decreases axes.len(),
{
    if axes.len() > 0 {
        let next = advance(cell, step, axes[0]);
        if cell_in_grid(next) {
            lemma_index_in_grid(next.x, next.y, next.z);
        }
        lemma_walk_sound(tiles, next, step, axes.drop_first());
    }
}

fn grid_index(x: i64, y: i64, z: i64) -> (r: usize)
    requires
        0 <= x < 16,
        0 <= y < 16,
        0 <= z < 16,
    ensures
        r == index_of(x as int, y as int, z as int),
        r < CHUNK_COUNT,
{
    proof {
        lemma_index_in_grid(x as int, y as int, z as int);
    }
    (x + y * (CHUNKS_X as i64) + z * (CHUNKS_X as i64) * (CHUNKS_Y as i64)) as usize
}

/// Walks `path` through `tile_map` and returns the first filled cell, if one
/// is met within `EDIT_RAYCAST_DIST` steps before the ray leaves the grid.
pub fn get_pointed_to_tile(path: &RayPath, tile_map: &[bool; CHUNK_COUNT]) -> (r: Option<Hit>)
    requires
        path.wf(),
    ensures
        r == pointed_to_tile(path, tile_map@),
        r matches Some(h) ==> sound_hit(tile_map@, path.start.cell(), EDIT_RAYCAST_DIST as int, h),
{
    let n: usize = if path.axes.len() < EDIT_RAYCAST_DIST {
        path.axes.len()
    } else {
        EDIT_RAYCAST_DIST
    };
    let ghost axes = path.budget();
    proof {
        lemma_walk_sound(tile_map@, path.start.cell(), path.step, axes);
    }
    assert(axes.len() == n);
    let mut x: i64 = path.start.x as i64;
    let mut y: i64 = path.start.y as i64;
    let mut z: i64 = path.start.z as i64;
    let mut k: usize = 0;
    assert(axes.skip(0) =~= axes);
    while k < n
        invariant
            path.wf(),
            n == axes.len(),
            n <= EDIT_RAYCAST_DIST,
            axes == path.budget(),
            pointed_to_tile(path, tile_map@) matches Some(h) ==> sound_hit(
                tile_map@,
                path.start.cell(),
                EDIT_RAYCAST_DIST as int,
                h,
            ),
            k <= n,
            forall|j: int| 0 <= j < n ==> axes[j] == path.axes@[j],
            path.start.x - k <= x <= path.start.x + k,
            path.start.y - k <= y <= path.start.y + k,
            path.start.z - k <= z <= path.start.z + k,
            pointed_to_tile(path, tile_map@) == walk(
                tile_map@,
                Cell { x: x as int, y: y as int, z: z as int },
                path.step,
                axes.skip(k as int),
            ),
        decreases n - k,
    {
        let ghost rest = axes.skip(k as int);
        assert(rest[0] == path.axes@[k as int]);
        assert(rest.drop_first() =~= axes.skip(k + 1));
        let axis = path.axes[k];
        match axis {
            Axis::X => { x = x + path.step.x as i64; },
            Axis::Y => { y = y + path.step.y as i64; },
            Axis::Z => { z = z + path.step.z as i64; },
        }
        let linear: i64 = x + y * (CHUNKS_X as i64) + z * (CHUNKS_X as i64) * (CHUNKS_Y as i64);
        if linear < 0 || linear >= CHUNK_COUNT as i64 {
            return None;
        }
        let in_grid = 0 <= x && x < CHUNKS_X as i64 && 0 <= y && y < CHUNKS_Y as i64 && 0 <= z && z < CHUNKS_Z as i64;
        if in_grid && tile_map[linear as usize] {
            let index = grid_index(x, y, z);
            let normal = match axis {
                Axis::X => GridVec { x: -path.step.x, y: 0, z: 0 },
                Axis::Y => GridVec { x: 0, y: -path.step.y, z: 0 },
                Axis::Z => GridVec { x: 0, y: 0, z: -path.step.z },
            };
            return Some(Hit { index, pos: GridVec { x: x as i32, y: y as i32, z: z as i32 }, normal });
        }
        k = k + 1;
    }
    None
}

/// On a grid with no filled cell the walk meets nothing, whatever the path.
pub proof fn lemma_empty_grid_no_hit(path: &RayPath, tiles: Seq<bool>)
    requires
        tiles.len() == CHUNK_COUNT,
        forall|i: int| 0 <= i < CHUNK_COUNT ==> !tiles[i],
    ensures
        pointed_to_tile(path, tiles) is None,
{
    lemma_walk_empty(tiles, path.start.cell(), path.step, path.budget());
}

proof fn lemma_walk_empty(tiles: Seq<bool>, cell: Cell, step: GridVec, axes: Seq<Axis>)
    requires
        tiles.len() == CHUNK_COUNT,
        forall|i: int| 0 <= i < CHUNK_COUNT ==> !tiles[i],
    ensures
        walk(tiles, cell, step, axes) is None,
    decreases axes.len(),
{
    if axes.len() > 0 {
        let next = advance(cell, step, axes[0]);
        if cell_in_grid(next) {
            lemma_index_in_grid(next.x, next.y, next.z);
        }
        lemma_walk_empty(tiles, next, step, axes.drop_first());
    }
}

/// A ray from cell `(k, 0, 0)` on the +x side of the grid, inside it or
/// outside, that moves along -x, on a grid whose one filled slot is slot 0,
/// hits cell `(0, 0, 0)` after `k` steps, on the face that looks toward +x.
pub proof fn lemma_hit_along_x(tiles: Seq<bool>, k: int, step: GridVec, axes: Seq<Axis>)
    requires
        tiles.len() == CHUNK_COUNT,
        tiles[0],
        forall|i: int| 0 < i < CHUNK_COUNT ==> !tiles[i],
        1 <= k <= CHUNK_COUNT,
        step.is_sign(),
        step.x == -1,
        axes.len() >= k,
        forall|j: int| 0 <= j < k ==> axes[j] == Axis::X,
    ensures
        walk(tiles, Cell { x: k, y: 0, z: 0 }, step, axes) == Some(
            Hit { index: 0, pos: GridVec { x: 0, y: 0, z: 0 }, normal: GridVec { x: 1, y: 0, z: 0 } },
        ),
    decreases k,
{
    let next = advance(Cell { x: k, y: 0, z: 0 }, step, axes[0]);
    assert(next == Cell { x: k - 1, y: 0, z: 0 });
    assert(index_of(k - 1, 0, 0) == k - 1);
    if k > 1 {
        lemma_hit_along_x(tiles, k - 1, step, axes.drop_first());
    }
}

} // verus!
