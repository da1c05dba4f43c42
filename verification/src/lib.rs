//! Height-field terrain synthesis in 24-bit fixed point.
//!
//! A coarse lattice of random control values is blended with a cubic ease
//! curve into a fine grid of heights, which is assembled into vertex, UV and
//! index buffers and, on request, into the sample buffer of a height-field
//! collider. Every scalar is an integer count of `1 / 2^24`, so the buffers are
//! the same on every machine; turning them into floating point is left to the
//! caller.

pub mod fixed;
pub mod lattice;
pub mod interpolate;
pub mod grid;
pub mod config;
pub mod mesh;
pub mod toggle;
pub mod heightfield;
pub mod terrain;

pub use crate::config::{ConfigFault, NormalMode, TerrainConfig};
pub use crate::fixed::{Point3, Uv, HALF, ONE};
pub use crate::grid::build_indices;
pub use crate::heightfield::{build_heightfield, HeightfieldBuffer};
pub use crate::interpolate::{interpolate, MAX_STEP};
pub use crate::lattice::{generate_lattice, unit_sample, ControlLattice};
pub use crate::mesh::{build_terrain_mesh, MeshBuffers};
pub use crate::terrain::{create_mountain_mesh, mountain_config, MOUNTAIN_LATTICE_SIZE};
pub use crate::toggle::toggle_uv_band;
