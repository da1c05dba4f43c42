//! The mountain: a terrain of 200 by 200 cells with two octaves, drawn from
//! a fresh lattice, together with its collider buffer.

use vstd::prelude::*;
use rand::rngs::StdRng;
use crate::config::{NormalMode, TerrainConfig};
use crate::heightfield::{build_heightfield, heightfield_of, HeightfieldBuffer};
use crate::lattice::{generate_lattice, lattice_valid};
use crate::mesh::{build_terrain_mesh, terrain_mesh, MeshBuffers};

verus! {

/// Rows of the lattice that the mountain is drawn from; far more than its
/// grid samples.
pub const MOUNTAIN_LATTICE_SIZE: usize = 1000;

/// The configuration of the mountain: 200 by 200 cells, a lattice point
/// every 20 cells, two octaves, four world units wide in both axes, normals
/// left to the caller.
pub open spec fn mountain() -> TerrainConfig {
    TerrainConfig {
        x_max: 200,
        y_max: 200,
        step: 20,
        second_octave: true,
        extent_x: 0x400_0000,
        extent_y: 0x400_0000,
        normals: NormalMode::Deferred,
    }
}

/// The configuration of the mountain. It is valid, and a lattice of
/// `MOUNTAIN_LATTICE_SIZE` rows fits it.
pub fn mountain_config() -> (config: TerrainConfig)
    ensures
        config == mountain(),
        config.valid(),
        config.fits(MOUNTAIN_LATTICE_SIZE as int),
{
    TerrainConfig {
        x_max: 200,
        y_max: 200,
        step: 20,
        second_octave: true,
        extent_x: 0x400_0000,
        extent_y: 0x400_0000,
        normals: NormalMode::Deferred,
    }
}

/// Draws a lattice of `MOUNTAIN_LATTICE_SIZE` rows from `rng` and builds the
/// mountain's mesh and collider buffer from it.
///
/// Whatever `rng` gives, the mesh is the mesh of some valid lattice under
/// `mountain()`, and the collider buffer is that of the mesh.
pub fn create_mountain_mesh(rng: &mut StdRng) -> (res: (HeightfieldBuffer, MeshBuffers))
    ensures
        exists|cells: Seq<Seq<u32>>|
            lattice_valid(cells) && cells.len() == MOUNTAIN_LATTICE_SIZE && res.1@
                == #[trigger] terrain_mesh(cells, mountain()),
        res.1.wf(),
        res.0@ == heightfield_of(res.1@),
{
    let config: TerrainConfig = mountain_config();
    let lattice = generate_lattice(MOUNTAIN_LATTICE_SIZE, rng);
    let mesh = build_terrain_mesh(&lattice, &config);
    let field = build_heightfield(&mesh);
    assert(mesh@ == terrain_mesh(lattice@, mountain()));
    (field, mesh)
}

} // verus!
