//! A sparse chunked voxel world: chunk addressing, voxel packing, model
//! placement, the write protocol of the dense world buffer, grid ray walking
//! and occupancy editing.

pub mod coords;
pub mod raycast;
pub mod voxel;
pub mod pec;
pub mod model;
pub mod vox;
pub mod placement;
pub mod buffer;
pub mod edit;
pub mod console;
pub mod tilemap;
