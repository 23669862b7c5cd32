use std::collections::HashMap;

use ctklr::coords::ChunkPos;
use ctklr::vox::vox_frames_checked;
use ctklr::model::{build_model, load_model, model_from_parts, LoadError, Model, VoxVoxel};

fn voxel(x: u8, y: u8, z: u8, color_index: u8) -> VoxVoxel {
    VoxVoxel { x, y, z, color_index }
}

fn vox_bytes(models: Vec<Vec<(i8, i8, i8, u8)>>) -> Vec<u8> {
    let mut data = vox_format::VoxData::default();
    for voxels in models {
        data.models.push(vox_format::types::Model {
            size: vox_format::types::Vector::new(64, 64, 64),
            voxels: voxels
                .into_iter()
                .map(|(x, y, z, c)| vox_format::types::Voxel {
                    point: vox_format::types::Vector::new(x, y, z),
                    color_index: vox_format::types::ColorIndex(c),
                })
                .collect(),
        });
    }
    vox_format::to_vec(&data).unwrap()
}

#[test]
fn new_model_is_empty() {
    assert!(Model::new().voxels.is_empty());
}

#[test]
fn voxels_bucket_by_chunk_with_z_up() {
    let vs = vec![voxel(17, 2, 33, 5), voxel(1, 1, 1, 9), voxel(18, 3, 40, 6)];
    let m = build_model(&vs, &HashMap::new());
    assert_eq!(m.voxels.len(), 2);
    // x / 16, z / 16, y / 16
    assert_eq!(m.voxels[0].pos, ChunkPos::new(1, 2, 0));
    assert_eq!(m.voxels[1].pos, ChunkPos::new(0, 0, 0));
    let first = &m.voxels[0].data;
    // slot: x % 16 + (z % 16) * 16 + (y % 16) * 256
    assert_eq!(first[1 + 1 * 16 + 2 * 256], 0x0500_0001);
    assert_eq!(first[2 + 8 * 16 + 3 * 256], 0x0600_0001);
    assert_eq!(first.iter().filter(|&&c| c != 0).count(), 2);
    let second = &m.voxels[1].data;
    assert_eq!(second[1 + 16 + 256], 0x0900_0001);
    assert_eq!(second.iter().filter(|&&c| c != 0).count(), 1);
}

#[test]
fn effects_apply_by_color() {
    let mut effects = HashMap::new();
    effects.insert(5u8, 3u32 << 20);
    let vs = vec![voxel(0, 0, 0, 5), voxel(1, 0, 0, 6)];
    let m = build_model(&vs, &effects);
    assert_eq!(m.voxels.len(), 1);
    assert_eq!(m.voxels[0].data[0], 0x0530_0001);
    assert_eq!(m.voxels[0].data[1], 0x0600_0001);
}

#[test]
fn last_voxel_at_a_slot_wins() {
    let vs = vec![voxel(3, 3, 3, 1), voxel(3, 3, 3, 2)];
    let m = build_model(&vs, &HashMap::new());
    assert_eq!(m.voxels.len(), 1);
    assert_eq!(m.voxels[0].data[3 + 3 * 16 + 3 * 256], 0x0200_0001);
}

#[test]
fn no_voxels_no_chunks() {
    let m = build_model(&Vec::new(), &HashMap::new());
    assert!(m.voxels.is_empty());
}

#[test]
fn parts_without_model() {
    assert!(matches!(model_from_parts(&Vec::new(), &HashMap::new()), Err(LoadError::NoModel)));
}

#[test]
fn parts_use_first_model() {
    let models = vec![vec![(200u8, 0u8, 0u8, 4u8)], vec![(0, 0, 0, 1), (20, 0, 0, 1)]];
    let m = model_from_parts(&models, &HashMap::new()).unwrap();
    assert_eq!(m.voxels.len(), 1);
    assert_eq!(m.voxels[0].pos, ChunkPos::new(12, 0, 0));
    assert_eq!(m.voxels[0].data[8], 0x0400_0001);
}

#[test]
fn load_from_vox_bytes() {
    let bytes = vox_bytes(vec![vec![(17, 2, 33, 5), (0, 0, 0, 7)]]);
    let m = load_model(&bytes, &"7>g2".to_string()).unwrap();
    assert_eq!(m.voxels.len(), 2);
    assert_eq!(m.voxels[0].pos, ChunkPos::new(1, 2, 0));
    assert_eq!(m.voxels[0].data[1 + 16 + 2 * 256], 0x0500_0001);
    assert_eq!(m.voxels[1].pos, ChunkPos::new(0, 0, 0));
    assert_eq!(m.voxels[1].data[0], 0x0700_0001 | (2 << 18));
}

#[test]
fn load_reads_coordinates_unsigned() {
    // a coordinate byte of 200 is stored as -56 by the reader
    let bytes = vox_bytes(vec![vec![(-56, 0, 0, 3)]]);
    let m = load_model(&bytes, &String::new()).unwrap();
    assert_eq!(m.voxels[0].pos, ChunkPos::new(12, 0, 0));
    assert_eq!(m.voxels[0].data[8], 0x0300_0001);
}

#[test]
fn load_errors() {
    let good = vox_bytes(vec![vec![(0, 0, 0, 1)]]);
    assert!(matches!(load_model(&good, &"x".to_string()), Err(LoadError::Pec)));
    assert!(matches!(load_model(b"not a vox file", &String::new()), Err(LoadError::Vox)));
    assert!(matches!(load_model(b"not a vox file", &"x".to_string()), Err(LoadError::Pec)));
    let empty = vox_bytes(vec![]);
    assert!(matches!(load_model(&empty, &String::new()), Err(LoadError::NoModel)));
}

fn framed(child_content_len: u32) -> Vec<u8> {
    let mut b = Vec::new();
    b.extend_from_slice(b"VOX ");
    b.extend_from_slice(&150u32.to_le_bytes());
    b.extend_from_slice(b"MAIN");
    b.extend_from_slice(&0u32.to_le_bytes());
    b.extend_from_slice(&24u32.to_le_bytes());
    b.extend_from_slice(b"SIZE");
    b.extend_from_slice(&child_content_len.to_le_bytes());
    b.extend_from_slice(&0u32.to_le_bytes());
    b.extend_from_slice(&[1, 0, 0, 0, 1, 0, 0, 0, 1, 0, 0, 0]);
    b
}

#[test]
fn chunk_lengths_past_the_end() {
    assert!(vox_frames_checked(&framed(12)));
    assert!(!vox_frames_checked(&framed(13)));
    assert!(!vox_frames_checked(&framed(0xFFFF_FFF0)));
    assert!(vox_frames_checked(b"short"));
    assert!(vox_frames_checked(&vox_bytes(vec![vec![(1, 2, 3, 4)]])));
    assert!(matches!(load_model(&framed(0xFFFF_FFF0), &String::new()), Err(LoadError::Vox)));
}
