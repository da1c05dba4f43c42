//! The height-field collider buffer: the negated heights of a mesh, slot by
//! slot, with the dimensions and the world-space scale of the mesh.

use vstd::prelude::*;
use crate::fixed::{Point3, ONE};
use crate::mesh::{MeshBuffers, MeshView};

verus! {

/// The samples of a height-field collider. Slot `row * num_cols + col`
/// belongs to the vertex in the same slot of the mesh it was built from.
#[derive(Clone, Debug, PartialEq, Eq)]
pub struct HeightfieldBuffer {
    /// One sample per vertex: the negated height.
    pub heights: Vec<i64>,
    /// Number of cells of the mesh along x.
    pub num_rows: usize,
    /// Number of cells of the mesh along y.
    pub num_cols: usize,
    /// World-space width along x and y, and one along the height.
    pub scale: Point3,
}

/// What a collider buffer holds, as mathematical values.
pub struct HeightfieldView {
    pub heights: Seq<i64>,
    pub num_rows: int,
    pub num_cols: int,
    pub scale: Point3,
}

impl View for HeightfieldBuffer {
    type V = HeightfieldView;

    open spec fn view(&self) -> HeightfieldView {
        HeightfieldView {
            heights: self.heights@,
            num_rows: self.num_rows as int,
            num_cols: self.num_cols as int,
            scale: self.scale,
        }
    }
}

/// The collider buffer of a mesh.
pub open spec fn heightfield_of(mesh: MeshView) -> HeightfieldView {
    HeightfieldView {
        heights: Seq::new(mesh.positions.len(), |k: int| (-mesh.positions[k].z) as i64),
        num_rows: mesh.x_max,
        num_cols: mesh.y_max,
        scale: Point3 { x: mesh.extent_x as i64, y: mesh.extent_y as i64, z: ONE },
    }
}

/// Builds the collider buffer of `mesh`: sample `k` is the negated height of
/// vertex `k`.
pub fn build_heightfield(mesh: &MeshBuffers) -> (field: HeightfieldBuffer)
    requires
        mesh.wf(),
    ensures
        field@ == heightfield_of(mesh@),
        field@.heights.len() == mesh@.positions.len(),
        forall|k: int|
            0 <= k < mesh@.positions.len() ==> #[trigger] field@.heights[k]
                == -mesh@.positions[k].z,
{
    let count: usize = mesh.positions.len();
    let mut heights: Vec<i64> = Vec::new();
    let mut k: usize = 0;
    while k < count
        invariant
            mesh.wf(),
            count == mesh@.positions.len(),
            k <= count,
            heights@.len() == k,
            forall|j: int| 0 <= j < k ==> #[trigger] heights@[j] == -mesh@.positions[j].z,
        decreases count - k,
    {
        let z: i64 = mesh.positions[k].z;
        heights.push(-z);
        k += 1;
    }
    let field = HeightfieldBuffer {
        heights,
        num_rows: mesh.x_max,
        num_cols: mesh.y_max,
        scale: Point3 { x: mesh.extent_x as i64, y: mesh.extent_y as i64, z: ONE },
    };
    assert(field@.heights =~= heightfield_of(mesh@).heights);
    field
}

} // verus!
