use ctklr::coords::CHUNK_COUNT;
use ctklr::placement::{Background, ModelHolder};
use ctklr::tilemap::{change_tilemap, fill_slots, spawn_tilemap, RANDOM_TILES};

fn slots<H>(holder: &ModelHolder<H>) -> [bool; CHUNK_COUNT] {
    match holder {
        ModelHolder::Tiled { filled_spots, .. } => *filled_spots,
        ModelHolder::Static { .. } => panic!("expected a tiled holder"),
    }
}

#[test]
fn fill_slots_sets_given_positions() {
    let mut tiles = [false; CHUNK_COUNT];
    tiles[3] = true;
    fill_slots(&mut tiles, &vec![5, 4095, CHUNK_COUNT, 5]);
    let filled: Vec<usize> = (0..CHUNK_COUNT).filter(|&i| tiles[i]).collect();
    assert_eq!(filled, vec![3, 5, 4095]);
}

#[test]
fn spawn_fills_drawn_positions() {
    let mut holder = ModelHolder::new_tiled(0u8);
    let drawn = spawn_tilemap(&mut holder);
    assert_eq!(drawn.len(), RANDOM_TILES);
    let tiles = slots(&holder);
    for &p in &drawn {
        assert!(p < CHUNK_COUNT);
        assert!(tiles[p]);
    }
    let count = tiles.iter().filter(|&&t| t).count();
    assert!(count >= 1 && count <= RANDOM_TILES);
    let mut s = ModelHolder::new_static(0u8);
    assert!(spawn_tilemap(&mut s).is_empty());
}

#[test]
fn change_refills_only_undrawn() {
    let mut holder = ModelHolder::new_tiled(0u8);
    if let ModelHolder::Tiled { filled_spots, .. } = &mut holder {
        for spot in filled_spots.iter_mut() {
            *spot = true;
        }
    }
    let drawn = change_tilemap(&mut holder, &Background { has_been_drawn: true });
    assert!(drawn.is_empty());
    assert!(slots(&holder).iter().all(|&t| t));
    let drawn = change_tilemap(&mut holder, &Background::new());
    assert_eq!(drawn.len(), RANDOM_TILES);
    let tiles = slots(&holder);
    for i in 0..CHUNK_COUNT {
        assert_eq!(tiles[i], drawn.contains(&i));
    }
}
