//! What a caller chooses about a terrain, and the faults of a choice that no
//! mesh can be built from.

use vstd::prelude::*;
use vstd::arithmetic::div_mod::lemma_div_is_ordered;
use vstd::arithmetic::mul::{lemma_mul_inequality, lemma_mul_upper_bound};
use crate::grid::grid_ok;
use crate::interpolate::{in_lattice, MAX_STEP};

verus! {

/// Where the normals of a mesh come from.
#[derive(Clone, Copy, Debug, PartialEq, Eq, Structural)]
pub enum NormalMode {
    /// Every vertex gets the unit vector that points up.
    Flat,
    /// The mesh carries no normals; the caller derives them from the
    /// triangles.
    Deferred,
}

/// The shape of a terrain.
#[derive(Clone, Copy, Debug, PartialEq, Eq, Structural)]
pub struct TerrainConfig {
    /// Number of fine cells along x.
    pub x_max: usize,
    /// Number of fine cells along y.
    pub y_max: usize,
    /// Number of fine cells between neighbouring lattice points.
    pub step: usize,
    /// Whether a second octave, at twice the frequency and half the
    /// amplitude, is added to the base heights.
    pub second_octave: bool,
    /// Width of the terrain along x in world space, as a fixed-point scalar.
    pub extent_x: u32,
    /// Width of the terrain along y in world space, as a fixed-point scalar.
    pub extent_y: u32,
    /// Where the normals come from.
    pub normals: NormalMode,
}

/// Why no mesh can be built from a configuration and a lattice.
#[derive(Clone, Copy, Debug, PartialEq, Eq, Structural)]
pub enum ConfigFault {
    /// `step` is zero.
    ZeroStep,
    /// `step` is above `MAX_STEP`.
    StepTooLarge,
    /// `x_max` or `y_max` is zero.
    EmptyGrid,
    /// The grid has more cells than a 32-bit index can name.
    GridTooLarge,
    /// The lattice does not reach one point beyond the last cell that is
    /// sampled.
    LatticeTooSmall,
}

impl TerrainConfig {
    /// The highest multiple of a cell's coordinates at which the lattice is
    /// sampled.
    pub open spec fn frequency(&self) -> int {
        if self.second_octave {
            2
        } else {
            1
        }
    }

    /// Whether the configuration by itself is in order.
    pub open spec fn valid(&self) -> bool {
        &&& 0 < self.step <= MAX_STEP
        &&& grid_ok(self.x_max as int, self.y_max as int)
    }

    /// Whether a lattice of `size` rows reaches far enough for every cell of
    /// the grid, in every octave.
    pub open spec fn fits(&self, size: int) -> bool {
        &&& in_lattice(size, self.frequency() * (self.x_max - 1), self.step as int)
        &&& in_lattice(size, self.frequency() * (self.y_max - 1), self.step as int)
    }

    /// The first fault of the configuration with a lattice of `size` rows, in
    /// the order of `ConfigFault`.
    pub open spec fn fault(&self, size: int) -> Option<ConfigFault> {
        if self.step == 0 {
            Some(ConfigFault::ZeroStep)
        } else if self.step > MAX_STEP {
            Some(ConfigFault::StepTooLarge)
        } else if self.x_max == 0 || self.y_max == 0 {
            Some(ConfigFault::EmptyGrid)
        } else if self.x_max * self.y_max > u32::MAX {
            Some(ConfigFault::GridTooLarge)
        } else if !self.fits(size) {
            Some(ConfigFault::LatticeTooSmall)
        } else {
            None
        }
    }

    /// Tests the configuration against a lattice of `lattice_size` rows and
    /// names the first fault.
    pub fn validate(&self, lattice_size: usize) -> (res: Result<(), ConfigFault>)
        ensures
            res == match self.fault(lattice_size as int) {
                Some(fault) => Err::<(), ConfigFault>(fault),
                None => Ok(()),
            },
            res.is_ok() <==> self.valid() && self.fits(lattice_size as int),
    {
        if self.step == 0 {
            return Err(ConfigFault::ZeroStep);
        }
        if self.step > MAX_STEP {
            return Err(ConfigFault::StepTooLarge);
        }
        if self.x_max == 0 || self.y_max == 0 {
            return Err(ConfigFault::EmptyGrid);
        }
        proof {
            lemma_mul_upper_bound(
                self.x_max as int,
                0xffff_ffff_ffff_ffff,
                self.y_max as int,
                0xffff_ffff_ffff_ffff,
            );
        }
        let cells: u128 = (self.x_max as u128) * (self.y_max as u128);
        if cells > 0xffff_ffff {
            return Err(ConfigFault::GridTooLarge);
        }
        proof {
            lemma_mul_inequality(1, self.y_max as int, self.x_max as int);
            lemma_mul_inequality(1, self.x_max as int, self.y_max as int);
            assert(self.x_max * self.y_max == self.y_max * self.x_max) by (nonlinear_arith);
        }
        let frequency: u64 = if self.second_octave {
            2
        } else {
            1
        };
        let step: u64 = self.step as u64;
        let last_x: u64 = frequency * (self.x_max as u64 - 1);
        let last_y: u64 = frequency * (self.y_max as u64 - 1);
        let size: u64 = lattice_size as u64;
        if last_x / step + 1 < size && last_y / step + 1 < size {
            Ok(())
        } else {
            Err(ConfigFault::LatticeTooSmall)
        }
    }
}

/// A lattice that fits a configuration has all four corners of every cell of
/// the grid, in every octave.
pub proof fn lemma_fits_cell(config: TerrainConfig, size: int, xi: int, yi: int)
    requires
        config.valid(),
        config.fits(size),
        0 <= xi < config.x_max,
        0 <= yi < config.y_max,
    ensures
        in_lattice(size, xi, config.step as int),
        in_lattice(size, yi, config.step as int),
        config.second_octave ==> in_lattice(size, 2 * xi, config.step as int),
        config.second_octave ==> in_lattice(size, 2 * yi, config.step as int),
{
    let step = config.step as int;
    let f = config.frequency();
    lemma_div_is_ordered(xi, f * (config.x_max - 1), step);
    lemma_div_is_ordered(yi, f * (config.y_max - 1), step);
    if config.second_octave {
        lemma_div_is_ordered(2 * xi, f * (config.x_max - 1), step);
        lemma_div_is_ordered(2 * yi, f * (config.y_max - 1), step);
    }
}

} // verus!
