//! The fixed-point scale shared by every buffer of the crate.

use vstd::prelude::*;

verus! {

/// The fixed-point scalar that stands for `1.0`: scalars count in units of
/// `1 / 2^24`.
pub const ONE: i64 = 0x100_0000;

/// The fixed-point scalar that stands for `0.5`.
pub const HALF: i64 = 0x80_0000;

/// A point or direction in space. `x` and `y` span the ground plane and `z`
/// is the height; each component is a fixed-point scalar.
#[derive(Clone, Copy, Debug, PartialEq, Eq, Structural)]
pub struct Point3 {
    pub x: i64,
    pub y: i64,
    pub z: i64,
}

/// A texture coordinate; each component is a fixed-point scalar.
#[derive(Clone, Copy, Debug, PartialEq, Eq, Structural)]
pub struct Uv {
    pub u: i64,
    pub v: i64,
}

} // verus!
