//! The mesh assembler: one vertex and one texture coordinate per cell of the
//! fine grid, the index buffer of the grid, and normals on request.

use vstd::prelude::*;
use vstd::arithmetic::div_mod::{lemma_div_is_ordered, lemma_multiply_divide_lt};
use vstd::arithmetic::mul::{
    lemma_mul_inequality, lemma_mul_strict_inequality, lemma_mul_upper_bound,
};
use crate::config::{lemma_fits_cell, NormalMode, TerrainConfig};
use crate::fixed::{Point3, Uv, ONE};
use crate::grid::{
    build_indices, flat_index, grid_indices, grid_ok, lemma_flat_index_bound,
    lemma_flat_index_cell, lemma_indices_below_cells,
};
use crate::interpolate::{interp, interpolate_wide, lemma_interp_unit_range};
use crate::lattice::{lattice_valid, ControlLattice};

verus! {

/// The buffers of a terrain mesh. Slot `xi * y_max + yi` of `positions`, of
/// `uvs` and of the normals belongs to cell `(xi, yi)`.
#[derive(Clone, Debug, PartialEq, Eq)]
pub struct MeshBuffers {
    /// Number of cells along x.
    pub x_max: usize,
    /// Number of cells along y.
    pub y_max: usize,
    /// Width of the mesh along x in world space.
    pub extent_x: u32,
    /// Width of the mesh along y in world space.
    pub extent_y: u32,
    /// One position per cell.
    pub positions: Vec<Point3>,
    /// One texture coordinate per cell.
    pub uvs: Vec<Uv>,
    /// Three vertex slots per triangle.
    pub indices: Vec<u32>,
    /// One normal per cell, or none where the caller derives them.
    pub normals: Option<Vec<Point3>>,
}

/// What a mesh holds, as mathematical sequences.
pub struct MeshView {
    pub x_max: int,
    pub y_max: int,
    pub extent_x: int,
    pub extent_y: int,
    pub positions: Seq<Point3>,
    pub uvs: Seq<Uv>,
    pub indices: Seq<u32>,
    pub normals: Option<Seq<Point3>>,
}

impl View for MeshBuffers {
    type V = MeshView;

    open spec fn view(&self) -> MeshView {
        MeshView {
            x_max: self.x_max as int,
            y_max: self.y_max as int,
            extent_x: self.extent_x as int,
            extent_y: self.extent_y as int,
            positions: self.positions@,
            uvs: self.uvs@,
            indices: self.indices@,
            normals: match self.normals {
                Some(normals) => Some(normals@),
                None => None,
            },
        }
    }
}

impl MeshView {
    /// Number of cells, which is the number of vertices.
    pub open spec fn cells(self) -> int {
        self.x_max * self.y_max
    }

    /// Number of triangles.
    pub open spec fn triangle_count(self) -> int {
        self.indices.len() as int / 3
    }

    /// The invariant of a mesh: one position and one texture coordinate per
    /// cell of a grid that is not empty, the index buffer of that grid,
    /// normals for all cells or for none, texture coordinates in `[0, 1)`,
    /// and heights that can be negated.
    pub open spec fn wf(self) -> bool {
        &&& grid_ok(self.x_max, self.y_max)
        &&& self.positions.len() == self.cells()
        &&& self.uvs.len() == self.cells()
        &&& self.indices == grid_indices(self.x_max, self.y_max)
        &&& self.normals matches Some(normals) ==> normals.len() == self.cells()
        &&& forall|k: int|
            0 <= k < self.uvs.len() ==> 0 <= (#[trigger] self.uvs[k]).u < ONE && 0
                <= self.uvs[k].v < ONE
        &&& forall|k: int|
            0 <= k < self.positions.len() ==> (#[trigger] self.positions[k]).z > i64::MIN
    }
}

impl MeshView {
    /// Every index of a well-formed mesh names one of its vertices.
    pub proof fn lemma_indices_in_range(self)
        requires
            self.wf(),
        ensures
            forall|j: int|
                0 <= j < self.indices.len() ==> (#[trigger] self.indices[j]) < self.positions.len(),
    {
        lemma_indices_below_cells(self.x_max, self.y_max);
    }
}

impl MeshBuffers {
    /// The invariant of a mesh; see `MeshView::wf`.
    pub open spec fn wf(&self) -> bool {
        self@.wf()
    }

    /// Tests the invariant of the mesh.
    pub fn is_well_formed(&self) -> (ok: bool)
        ensures
            ok == self.wf(),
    {
        if self.x_max == 0 || self.y_max == 0 {
            return false;
        }
        proof {
            lemma_mul_upper_bound(
                self.x_max as int,
                0xffff_ffff_ffff_ffff,
                self.y_max as int,
                0xffff_ffff_ffff_ffff,
            );
        }
        let cells: u128 = (self.x_max as u128) * (self.y_max as u128);
        if cells > 0xffff_ffff {
            return false;
        }
        let count: usize = cells as usize;
        if self.positions.len() != count || self.uvs.len() != count {
            return false;
        }
        match &self.normals {
            Some(normals) => {
                if normals.len() != count {
                    return false;
                }
            },
            None => {},
        }
        let mut k: usize = 0;
        while k < count
            invariant
                k <= count,
                count == self.positions@.len(),
                count == self.uvs@.len(),
                forall|j: int|
                    0 <= j < k ==> 0 <= (#[trigger] self.uvs@[j]).u < ONE && 0 <= self.uvs@[j].v
                        < ONE,
                forall|j: int| 0 <= j < k ==> (#[trigger] self.positions@[j]).z > i64::MIN,
            decreases count - k,
        {
            let uv: Uv = self.uvs[k];
            if uv.u < 0 || uv.u >= ONE || uv.v < 0 || uv.v >= ONE {
                assert(!(0 <= self@.uvs[k as int].u < ONE && 0 <= self@.uvs[k as int].v < ONE));
                return false;
            }
            if self.positions[k].z == i64::MIN {
                assert(!(self@.positions[k as int].z > i64::MIN));
                return false;
            }
            k += 1;
        }
        let expected: Vec<u32> = build_indices(self.x_max, self.y_max);
        if self.indices.len() != expected.len() {
            return false;
        }
        let mut j: usize = 0;
        while j < expected.len()
            invariant
                j <= expected@.len(),
                expected@.len() == self.indices@.len(),
                expected@ == grid_indices(self.x_max as int, self.y_max as int),
                forall|i: int| 0 <= i < j ==> self.indices@[i] == expected@[i],
            decreases expected@.len() - j,
        {
            if self.indices[j] != expected[j] {
                assert(self@.indices[j as int] != grid_indices(
                    self.x_max as int,
                    self.y_max as int,
                )[j as int]);
                return false;
            }
            j += 1;
        }
        assert(self.indices@ =~= expected@);
        true
    }
}

/// The height of cell `(xi, yi)`: the base octave, and half of the octave at
/// twice the frequency where one is asked for.
pub open spec fn height(cells: Seq<Seq<u32>>, second_octave: bool, xi: int, yi: int, step: int)
    -> int {
    interp(cells, xi, yi, step) + if second_octave {
        interp(cells, 2 * xi, 2 * yi, step) / 2
    } else {
        0
    }
}

/// The world coordinate of cell `i` of `max` along an axis of width `extent`
/// that is centred on the origin.
pub open spec fn world(i: int, max: int, extent: int) -> int {
    (i * extent) / max - extent / 2
}

/// The texture coordinate of cell `i` of `max` along one axis.
pub open spec fn texture(i: int, max: int) -> int {
    (i * ONE) / max
}

/// The position in slot `k`.
pub open spec fn vertex_at(cells: Seq<Seq<u32>>, config: TerrainConfig, k: int) -> Point3 {
    let xi = k / (config.y_max as int);
    let yi = k % (config.y_max as int);
    Point3 {
        x: world(xi, config.x_max as int, config.extent_x as int) as i64,
        y: world(yi, config.y_max as int, config.extent_y as int) as i64,
        z: height(cells, config.second_octave, xi, yi, config.step as int) as i64,
    }
}

/// The texture coordinate in slot `k`.
pub open spec fn uv_at(config: TerrainConfig, k: int) -> Uv {
    Uv {
        u: texture(k / (config.y_max as int), config.x_max as int) as i64,
        v: texture(k % (config.y_max as int), config.y_max as int) as i64,
    }
}

/// The unit vector that points up.
pub open spec fn up() -> Point3 {
    Point3 { x: 0, y: 0, z: ONE }
}

/// The mesh of a lattice under a configuration.
pub open spec fn terrain_mesh(cells: Seq<Seq<u32>>, config: TerrainConfig) -> MeshView {
    let count = (config.x_max * config.y_max) as nat;
    MeshView {
        x_max: config.x_max as int,
        y_max: config.y_max as int,
        extent_x: config.extent_x as int,
        extent_y: config.extent_y as int,
        positions: Seq::new(count, |k: int| vertex_at(cells, config, k)),
        uvs: Seq::new(count, |k: int| uv_at(config, k)),
        indices: grid_indices(config.x_max as int, config.y_max as int),
        normals: match config.normals {
            NormalMode::Flat => Some(Seq::new(count, |k: int| up())),
            NormalMode::Deferred => None,
        },
    }
}

/// A texture coordinate is a scalar in `[0, 1)`.
pub proof fn lemma_texture_range(i: int, max: int)
    requires
        0 <= i < max,
    ensures
        0 <= texture(i, max) < ONE,
{
    lemma_mul_strict_inequality(i, max, ONE as int);
    assert(i * ONE < ONE * max) by (nonlinear_arith)
        requires
            i * ONE < max * ONE,
    ;
    lemma_multiply_divide_lt(i * ONE, max, ONE as int);
    assert(0 <= i * ONE) by (nonlinear_arith)
        requires
            0 <= i,
    ;
    vstd::arithmetic::div_mod::lemma_div_pos_is_pos(i * ONE, max);
}

/// A world coordinate lies within half the extent of the origin.
pub proof fn lemma_world_range(i: int, max: int, extent: int)
    requires
        0 <= i < max,
        0 <= extent,
    ensures
        0 <= (i * extent) / max <= extent,
        -extent <= world(i, max, extent) <= extent,
{
    assert(0 <= i * extent <= max * extent) by (nonlinear_arith)
        requires
            0 <= i < max,
            0 <= extent,
    ;
    lemma_div_is_ordered(i * extent, max * extent, max);
    vstd::arithmetic::div_mod::lemma_div_multiples_vanish(extent, max);
    vstd::arithmetic::div_mod::lemma_div_pos_is_pos(i * extent, max);
}

/// On a lattice that fits, every height is a scalar in `[0, 1.5)`.
pub proof fn lemma_height_range(cells: Seq<Seq<u32>>, config: TerrainConfig, xi: int, yi: int)
    requires
        lattice_valid(cells),
        config.valid(),
        config.fits(cells.len() as int),
        0 <= xi < config.x_max,
        0 <= yi < config.y_max,
    ensures
        0 <= height(cells, config.second_octave, xi, yi, config.step as int) < ONE + ONE / 2,
{
    lemma_fits_cell(config, cells.len() as int, xi, yi);
    lemma_interp_unit_range(cells, xi, yi, config.step as int);
    if config.second_octave {
        lemma_interp_unit_range(cells, 2 * xi, 2 * yi, config.step as int);
    }
}

/// The world coordinate of cell `i` of `max`.
fn world_coord(i: usize, max: usize, extent: u32) -> (w: i64)
    requires
        i < max <= u32::MAX,
    ensures
        w == world(i as int, max as int, extent as int),
{
    proof {
        lemma_world_range(i as int, max as int, extent as int);
        lemma_mul_upper_bound(i as int, 0xffff_ffff, extent as int, 0xffff_ffff);
    }
    let scaled: u64 = (i as u64) * (extent as u64) / (max as u64);
    scaled as i64 - (extent / 2) as i64
}

/// The texture coordinate of cell `i` of `max`.
fn texture_coord(i: usize, max: usize) -> (t: i64)
    requires
        i < max <= u32::MAX,
    ensures
        t == texture(i as int, max as int),
        0 <= t < ONE,
{
    proof {
        lemma_texture_range(i as int, max as int);
        lemma_mul_upper_bound(i as int, 0xffff_ffff, ONE as int, ONE as int);
    }
    let scaled: u64 = (i as u64) * 0x100_0000 / (max as u64);
    scaled as i64
}

/// One upward normal per vertex.
fn flat_normals(count: usize) -> (normals: Vec<Point3>)
    ensures
        normals@ == Seq::new(count as nat, |k: int| up()),
{
    let mut normals: Vec<Point3> = Vec::new();
    let mut k: usize = 0;
    while k < count
        invariant
            k <= count,
            normals@.len() == k,
            forall|j: int| 0 <= j < k ==> normals@[j] == up(),
        decreases count - k,
    {
        normals.push(Point3 { x: 0, y: 0, z: ONE });
        k += 1;
    }
    assert(normals@ =~= Seq::new(count as nat, |k: int| up()));
    normals
}

/// Builds the mesh of `lattice` under `config`.
///
/// The buffers are a function of the lattice and the configuration alone:
/// building twice from the same two gives the same mesh. The mesh has
/// `x_max * y_max` vertices and two triangles for each of the
/// `(x_max - 1) * (y_max - 1)` quads of the grid.
pub fn build_terrain_mesh(lattice: &ControlLattice, config: &TerrainConfig) -> (mesh: MeshBuffers)
    requires
        lattice.wf(),
        config.valid(),
        config.fits(lattice.spec_size() as int),
    ensures
        mesh@ == terrain_mesh(lattice@, *config),
        mesh.wf(),
        mesh@.positions.len() == config.x_max * config.y_max,
        mesh@.triangle_count() == 2 * (config.x_max - 1) * (config.y_max - 1),
        forall|j: int|
            0 <= j < mesh@.indices.len() ==> (#[trigger] mesh@.indices[j]) < mesh@.positions.len(),
{
    let x_max: usize = config.x_max;
    let y_max: usize = config.y_max;
    let step: u64 = config.step as u64;
    let ghost cells = lattice@;
    proof {
        lemma_mul_inequality(1, y_max as int, x_max as int);
        lemma_mul_inequality(1, x_max as int, y_max as int);
        assert(x_max * y_max == y_max * x_max) by (nonlinear_arith);
    }
    let mut positions: Vec<Point3> = Vec::new();
    let mut uvs: Vec<Uv> = Vec::new();
    let mut xi: usize = 0;
    while xi < x_max
        invariant
            lattice.wf(),
            cells == lattice@,
            config.valid(),
            config.fits(cells.len() as int),
            x_max == config.x_max,
            y_max == config.y_max,
            step == config.step,
            x_max <= u32::MAX,
            y_max <= u32::MAX,
            xi <= x_max,
            positions@.len() == xi * y_max,
            uvs@.len() == positions@.len(),
            forall|k: int|
                0 <= k < positions@.len() ==> positions@[k] == vertex_at(cells, *config, k),
            forall|k: int| 0 <= k < uvs@.len() ==> uvs@[k] == uv_at(*config, k),
        decreases x_max - xi,
    {
        let x: i64 = world_coord(xi, x_max, config.extent_x);
        let u: i64 = texture_coord(xi, x_max);
        let mut yi: usize = 0;
        while yi < y_max
            invariant
                lattice.wf(),
                cells == lattice@,
                config.valid(),
                config.fits(cells.len() as int),
                x_max == config.x_max,
                y_max == config.y_max,
                step == config.step,
                x_max <= u32::MAX,
                y_max <= u32::MAX,
                xi < x_max,
                yi <= y_max,
                x == world(xi as int, x_max as int, config.extent_x as int),
                u == texture(xi as int, x_max as int),
                positions@.len() == xi * y_max + yi,
                uvs@.len() == positions@.len(),
                forall|k: int|
                    0 <= k < positions@.len() ==> positions@[k] == vertex_at(cells, *config, k),
                forall|k: int| 0 <= k < uvs@.len() ==> uvs@[k] == uv_at(*config, k),
            decreases y_max - yi,
        {
            proof {
                lemma_fits_cell(*config, cells.len() as int, xi as int, yi as int);
                lemma_flat_index_cell(y_max as int, xi as int, yi as int);
            }
            let base: i64 = interpolate_wide(lattice, xi as u64, yi as u64, step);
            let detail: i64 = if config.second_octave {
                interpolate_wide(lattice, 2 * (xi as u64), 2 * (yi as u64), step) / 2
            } else {
                0
            };
            let y: i64 = world_coord(yi, y_max, config.extent_y);
            let v: i64 = texture_coord(yi, y_max);
            positions.push(Point3 { x, y, z: base + detail });
            uvs.push(Uv { u, v });
            yi += 1;
        }
        proof {
            vstd::arithmetic::mul::lemma_mul_is_distributive_add_other_way(
                y_max as int,
                xi as int,
                1,
            );
        }
        xi += 1;
    }
    let indices: Vec<u32> = build_indices(x_max, y_max);
    let normals: Option<Vec<Point3>> = match config.normals {
        NormalMode::Flat => Some(flat_normals(positions.len())),
        NormalMode::Deferred => None,
    };
    let mesh = MeshBuffers {
        x_max,
        y_max,
        extent_x: config.extent_x,
        extent_y: config.extent_y,
        positions,
        uvs,
        indices,
        normals,
    };
    proof {
        let model = terrain_mesh(cells, *config);
        assert(mesh@.positions =~= model.positions);
        assert(mesh@.uvs =~= model.uvs);
        assert(mesh@.normals == model.normals) by {
            if config.normals == NormalMode::Flat {
                assert(mesh@.normals.unwrap() =~= model.normals.unwrap());
            }
        }
        lemma_terrain_mesh_wf(cells, *config);
        mesh@.lemma_indices_in_range();
    }
    mesh
}

/// The mesh of a valid lattice that fits a valid configuration is well
/// formed, has one vertex per cell and two triangles per quad of the grid.
pub proof fn lemma_terrain_mesh_wf(cells: Seq<Seq<u32>>, config: TerrainConfig)
    requires
        lattice_valid(cells),
        config.valid(),
        config.fits(cells.len() as int),
    ensures
        terrain_mesh(cells, config).wf(),
        terrain_mesh(cells, config).positions.len() == config.x_max * config.y_max,
        terrain_mesh(cells, config).triangle_count() == 2 * (config.x_max - 1) * (config.y_max
            - 1),
{
    let mesh = terrain_mesh(cells, config);
    let x_max = config.x_max as int;
    let y_max = config.y_max as int;
    lemma_flat_index_bound(x_max, y_max, 0, 0);
    assert forall|k: int| 0 <= k < mesh.uvs.len() implies 0 <= (#[trigger] mesh.uvs[k]).u < ONE
        && 0 <= mesh.uvs[k].v < ONE by {
        lemma_slot_cell(x_max, y_max, k);
        lemma_texture_range(k / y_max, x_max);
        lemma_texture_range(k % y_max, y_max);
    }
    assert forall|k: int| 0 <= k < mesh.positions.len() implies (#[trigger] mesh.positions[k]).z
        > i64::MIN by {
        lemma_slot_cell(x_max, y_max, k);
        lemma_height_range(cells, config, k / y_max, k % y_max);
    }
    let quads = (x_max - 1) * (y_max - 1);
    assert(mesh.indices.len() == 6 * quads);
    assert(2 * (x_max - 1) * (y_max - 1) == 2 * quads) by (nonlinear_arith)
        requires
            quads == (x_max - 1) * (y_max - 1),
    ;
}

/// The vertex and the texture coordinate of cell `(xi, yi)` sit in slot
/// `xi * y_max + yi`.
pub proof fn lemma_terrain_vertex(cells: Seq<Seq<u32>>, config: TerrainConfig, xi: int, yi: int)
    requires
        0 <= xi < config.x_max,
        0 <= yi < config.y_max,
    ensures
        ({
            let mesh = terrain_mesh(cells, config);
            let k = flat_index(xi, yi, config.y_max as int);
            &&& 0 <= k < mesh.positions.len() == mesh.uvs.len()
            &&& mesh.positions[k].x == world(xi, config.x_max as int, config.extent_x as int) as i64
            &&& mesh.positions[k].y == world(yi, config.y_max as int, config.extent_y as int) as i64
            &&& mesh.positions[k].z == height(
                cells,
                config.second_octave,
                xi,
                yi,
                config.step as int,
            ) as i64
            &&& mesh.uvs[k].u == texture(xi, config.x_max as int) as i64
            &&& mesh.uvs[k].v == texture(yi, config.y_max as int) as i64
        }),
{
    lemma_flat_index_bound(config.x_max as int, config.y_max as int, xi, yi);
    lemma_flat_index_cell(config.y_max as int, xi, yi);
}

/// A slot below the number of cells belongs to a cell of the grid.
pub proof fn lemma_slot_cell(x_max: int, y_max: int, k: int)
    requires
        0 < y_max,
        0 <= k < x_max * y_max,
    ensures
        0 <= k / y_max < x_max,
        0 <= k % y_max < y_max,
        k == flat_index(k / y_max, k % y_max, y_max),
{
    vstd::arithmetic::div_mod::lemma_fundamental_div_mod(k, y_max);
    vstd::arithmetic::div_mod::lemma_mod_pos_bound(k, y_max);
    vstd::arithmetic::div_mod::lemma_div_pos_is_pos(k, y_max);
    let q = k / y_max;
    assert(q < x_max) by (nonlinear_arith)
        requires
            k == y_max * q + k % y_max,
            0 <= k % y_max,
            k < x_max * y_max,
            0 < y_max,
    ;
    assert(y_max * q == q * y_max) by (nonlinear_arith);
}

} // verus!
