use ctklr::coords::CHUNK_COUNT;
use ctklr::raycast::{get_pointed_to_tile, Axis, GridVec, Hit, RayPath};

fn v(x: i32, y: i32, z: i32) -> GridVec {
    GridVec { x, y, z }
}

#[test]
fn hit_at_origin_from_positive_x() {
    let mut tiles = [false; CHUNK_COUNT];
    tiles[0] = true;
    // camera in cell (3, 0, 0) looking along -x
    let path = RayPath { start: v(3, 0, 0), step: v(-1, 1, -1), axes: vec![Axis::X; 100] };
    let hit = get_pointed_to_tile(&path, &tiles).unwrap();
    assert_eq!(hit, Hit { index: 0, pos: v(0, 0, 0), normal: v(1, 0, 0) });
}

#[test]
fn normal_follows_last_axis() {
    let mut tiles = [false; CHUNK_COUNT];
    tiles[1 + 2 * 16] = true;
    let path = RayPath { start: v(0, 0, 0), step: v(1, 1, 1), axes: vec![Axis::X, Axis::Y, Axis::Y, Axis::Z] };
    let hit = get_pointed_to_tile(&path, &tiles).unwrap();
    assert_eq!(hit, Hit { index: 33, pos: v(1, 2, 0), normal: v(0, -1, 0) });
}

#[test]
fn empty_grid_never_hits() {
    let tiles = [false; CHUNK_COUNT];
    for step in [v(1, 1, 1), v(-1, -1, -1), v(1, -1, 1), v(-1, 1, -1)] {
        for axis in [Axis::X, Axis::Y, Axis::Z] {
            let path = RayPath { start: v(7, 7, 7), step, axes: vec![axis; 1000] };
            assert_eq!(get_pointed_to_tile(&path, &tiles), None);
        }
    }
}

#[test]
fn start_cell_is_not_tested() {
    let mut tiles = [false; CHUNK_COUNT];
    tiles[0] = true;
    let path = RayPath { start: v(0, 0, 0), step: v(1, 1, 1), axes: vec![Axis::X; 20] };
    assert_eq!(get_pointed_to_tile(&path, &tiles), None);
}

#[test]
fn leaving_the_grid_stops() {
    let mut tiles = [false; CHUNK_COUNT];
    tiles[0] = true;
    let path = RayPath { start: v(0, 0, 15), step: v(1, 1, 1), axes: vec![Axis::Z, Axis::Z, Axis::X] };
    assert_eq!(get_pointed_to_tile(&path, &tiles), None);
}

#[test]
fn crossing_the_x_edge_does_not_wrap() {
    let mut tiles = [false; CHUNK_COUNT];
    // slot 16 is cell (0, 1, 0), which shares its index with (16, 0, 0):
    // the off-grid cells are passed without being read
    tiles[16] = true;
    let path = RayPath { start: v(15, 0, 0), step: v(1, 1, 1), axes: vec![Axis::X; 10] };
    assert_eq!(get_pointed_to_tile(&path, &tiles), None);
}

#[test]
fn negative_cells_end_the_walk() {
    let mut tiles = [false; CHUNK_COUNT];
    tiles[0] = true;
    let path = RayPath { start: v(0, 0, 0), step: v(-1, -1, -1), axes: vec![Axis::X] };
    assert_eq!(get_pointed_to_tile(&path, &tiles), None);
    let path = RayPath { start: v(-150, 0, 0), step: v(1, 1, 1), axes: vec![Axis::X; 200] };
    assert_eq!(get_pointed_to_tile(&path, &tiles), None);
}

#[test]
fn hits_lie_in_the_grid_with_unit_normals() {
    let mut tiles = [false; CHUNK_COUNT];
    for i in (0..CHUNK_COUNT).step_by(7) {
        tiles[i] = true;
    }
    for step in [v(1, 1, 1), v(-1, -1, -1), v(1, -1, 1)] {
        let axes = vec![Axis::X, Axis::Y, Axis::Z, Axis::Y, Axis::X, Axis::Z, Axis::X, Axis::X, Axis::Y];
        let path = RayPath { start: v(8, 8, 8), step, axes };
        if let Some(h) = get_pointed_to_tile(&path, &tiles) {
            assert!((0..16).contains(&h.pos.x) && (0..16).contains(&h.pos.y) && (0..16).contains(&h.pos.z));
            assert_eq!(h.index, (h.pos.x + h.pos.y * 16 + h.pos.z * 256) as usize);
            assert!(tiles[h.index]);
            assert_eq!(h.normal.x.abs() + h.normal.y.abs() + h.normal.z.abs(), 1);
        }
    }
}

#[test]
fn hit_from_outside_the_grid() {
    let mut tiles = [false; CHUNK_COUNT];
    tiles[0] = true;
    let path = RayPath { start: v(16, 0, 0), step: v(-1, 1, 1), axes: vec![Axis::X; 100] };
    assert_eq!(get_pointed_to_tile(&path, &tiles), Some(Hit { index: 0, pos: v(0, 0, 0), normal: v(1, 0, 0) }));
    // from further out the ray still enters the grid
    for k in [17, 40, 99, 100] {
        let path = RayPath { start: v(k, 0, 0), step: v(-1, 1, 1), axes: vec![Axis::X; 100] };
        assert_eq!(get_pointed_to_tile(&path, &tiles), Some(Hit { index: 0, pos: v(0, 0, 0), normal: v(1, 0, 0) }));
    }
    // past the step budget
    let path = RayPath { start: v(101, 0, 0), step: v(-1, 1, 1), axes: vec![Axis::X; 200] };
    assert_eq!(get_pointed_to_tile(&path, &tiles), None);
}

#[test]
fn off_grid_cells_with_index_in_range_are_passed() {
    let mut tiles = [false; CHUNK_COUNT];
    tiles[2 + 16] = true;
    // (-1, 1, 0) has index 15, in range but off the grid: the walk goes on
    let path = RayPath { start: v(0, 1, 0), step: v(-1, 1, 1), axes: vec![Axis::X] };
    assert_eq!(get_pointed_to_tile(&path, &tiles), None);
    let path = RayPath { start: v(-2, 1, 0), step: v(1, 1, 1), axes: vec![Axis::X; 10] };
    // index of (-1, 1, 0) is 15: passed; (0, 1, 0) empty; (1, 1, 0) empty; (2, 1, 0) filled
    assert_eq!(get_pointed_to_tile(&path, &tiles), Some(Hit { index: 18, pos: v(2, 1, 0), normal: v(-1, 0, 0) }));
}
