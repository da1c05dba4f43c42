//! The texture band toggle: moves every texture coordinate between the two
//! bands of an atlas that are stacked along `v`.

use vstd::prelude::*;
use crate::fixed::{Uv, HALF, ONE};
use crate::mesh::{MeshBuffers, MeshView};

verus! {

/// A `v` coordinate in the other band: up by one half where that stays
/// below one, down by one half otherwise. A coordinate of exactly one half
/// goes down, to zero.
pub open spec fn toggled(v: int) -> int {
    if v + HALF < ONE {
        v + HALF
    } else {
        v - HALF
    }
}

/// A texture coordinate in the other band.
pub open spec fn toggle_uv(uv: Uv) -> Uv {
    Uv { u: uv.u, v: toggled(uv.v as int) as i64 }
}

/// A buffer of texture coordinates in the other band.
pub open spec fn toggle_band(uvs: Seq<Uv>) -> Seq<Uv> {
    Seq::new(uvs.len(), |k: int| toggle_uv(uvs[k]))
}

/// Toggling a scalar of `[0, 1)` gives a scalar of `[0, 1)`, and toggling
/// that gives the first one back.
pub proof fn lemma_toggled_twice(v: int)
    requires
        0 <= v < ONE,
    ensures
        0 <= toggled(v) < ONE,
        toggled(toggled(v)) == v,
{
}

/// Toggling a buffer twice gives the buffer back, where every `v` coordinate
/// is a scalar of `[0, 1)`.
pub proof fn lemma_toggle_band_twice(uvs: Seq<Uv>)
    requires
        forall|k: int| 0 <= k < uvs.len() ==> 0 <= (#[trigger] uvs[k]).v < ONE,
    ensures
        toggle_band(toggle_band(uvs)) == uvs,
{
    assert forall|k: int| 0 <= k < uvs.len() implies toggle_band(toggle_band(uvs))[k]
        == uvs[k] by {
        lemma_toggled_twice(uvs[k].v as int);
    }
    assert(toggle_band(toggle_band(uvs)) =~= uvs);
}

/// Moves every texture coordinate of `mesh` to the other band and leaves the
/// rest of the mesh as it is.
pub fn toggle_uv_band(mesh: &mut MeshBuffers)
    requires
        old(mesh).wf(),
    ensures
        final(mesh).wf(),
        final(mesh)@ == (MeshView { uvs: toggle_band(old(mesh)@.uvs), ..old(mesh)@ }),
{
    let count: usize = mesh.uvs.len();
    let ghost before = mesh@;
    let mut k: usize = 0;
    while k < count
        invariant
            k <= count,
            count == before.uvs.len(),
            before.wf(),
            mesh@ == (MeshView { uvs: mesh@.uvs, ..before }),
            mesh@.uvs.len() == count,
            forall|j: int| 0 <= j < k ==> mesh@.uvs[j] == toggle_uv(before.uvs[j]),
            forall|j: int| k <= j < count ==> mesh@.uvs[j] == before.uvs[j],
        decreases count - k,
    {
        let uv: Uv = mesh.uvs[k];
        assert(uv == before.uvs[k as int]);
        let v: i64 = if uv.v + HALF < ONE {
            uv.v + HALF
        } else {
            uv.v - HALF
        };
        mesh.uvs[k] = Uv { u: uv.u, v };
        k += 1;
    }
    proof {
        assert(mesh@.uvs =~= toggle_band(before.uvs));
        assert forall|j: int| 0 <= j < mesh@.uvs.len() implies 0 <= (#[trigger] mesh@.uvs[j]).u
            < ONE && 0 <= mesh@.uvs[j].v < ONE by {
            lemma_toggled_twice(before.uvs[j].v as int);
        }
    }
}

} // verus!
