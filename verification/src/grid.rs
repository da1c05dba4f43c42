//! The topology of the vertex grid: where each cell's vertex sits in the
//! buffers, and the index buffer that ties the vertices into triangles.
//!
//! The vertex of cell `(xi, yi)` sits in slot `xi * y_max + yi`. Every quad
//! whose four corners are cells of the grid gives two triangles; quads are
//! visited by anchor, `xi` first. With `right = (xi + 1, yi)`,
//! `down = (xi, yi + 1)` and `down_right = (xi + 1, yi + 1)` the triangles are
//! `(anchor, down_right, right)` and `(anchor, down, down_right)`.

use vstd::prelude::*;
use vstd::arithmetic::div_mod::{
    lemma_div_pos_is_pos, lemma_fundamental_div_mod, lemma_fundamental_div_mod_converse,
    lemma_mod_pos_bound,
};
use vstd::arithmetic::mul::{lemma_mul_is_associative, lemma_mul_is_distributive_add_other_way};

verus! {

/// Whether a grid of `x_max` by `y_max` cells is not empty and small enough
/// for 32-bit vertex indices.
pub open spec fn grid_ok(x_max: int, y_max: int) -> bool {
    0 < x_max && 0 < y_max && x_max * y_max <= u32::MAX
}

/// The buffer slot of the vertex of cell `(xi, yi)`.
pub open spec fn flat_index(xi: int, yi: int, y_max: int) -> int {
    xi * y_max + yi
}

/// Number of quads whose four corners are cells of the grid.
pub open spec fn quad_count(x_max: int, y_max: int) -> int {
    (x_max - 1) * (y_max - 1)
}

/// The corner, as an offset from the anchor, that stands at place `t` among
/// the six indices of a quad.
pub open spec fn corner_offset(t: int) -> (int, int) {
    if t == 0 || t == 3 {
        (0, 0)
    } else if t == 1 || t == 5 {
        (1, 1)
    } else if t == 2 {
        (1, 0)
    } else {
        (0, 1)
    }
}

/// The anchor cell of the quad that entry `j` of the index buffer belongs to.
pub open spec fn quad_anchor(y_max: int, j: int) -> (int, int) {
    ((j / 6) / (y_max - 1), (j / 6) % (y_max - 1))
}

/// Entry `j` of the index buffer.
pub open spec fn index_at(y_max: int, j: int) -> int {
    let anchor = quad_anchor(y_max, j);
    let offset = corner_offset(j % 6);
    flat_index(anchor.0 + offset.0, anchor.1 + offset.1, y_max)
}

/// The index buffer of a grid of `x_max` by `y_max` cells.
pub open spec fn grid_indices(x_max: int, y_max: int) -> Seq<u32> {
    Seq::new((6 * quad_count(x_max, y_max)) as nat, |j: int| index_at(y_max, j) as u32)
}

/// Slots of cells of the grid are below the number of cells, and the number
/// of quads is not negative.
pub proof fn lemma_flat_index_bound(x_max: int, y_max: int, xi: int, yi: int)
    requires
        0 <= xi < x_max,
        0 <= yi < y_max,
    ensures
        0 <= flat_index(xi, yi, y_max) < x_max * y_max,
        0 <= quad_count(x_max, y_max),
{
    assert(0 <= xi * y_max && xi * y_max + y_max <= x_max * y_max) by (nonlinear_arith)
        requires
            0 <= xi < x_max,
            0 < y_max,
    ;
    assert(0 <= (x_max - 1) * (y_max - 1)) by (nonlinear_arith)
        requires
            0 < x_max,
            0 < y_max,
    ;
}

/// A slot determines its cell.
pub proof fn lemma_flat_index_cell(y_max: int, xi: int, yi: int)
    requires
        0 <= yi < y_max,
    ensures
        flat_index(xi, yi, y_max) / y_max == xi,
        flat_index(xi, yi, y_max) % y_max == yi,
{
    lemma_fundamental_div_mod_converse(xi * y_max + yi, y_max, xi, yi);
}

/// Every quad whose four corners are cells of the grid is in the index
/// buffer, once: the six entries of the quad anchored at `(xi, yi)` start at
/// `6 * (xi * (y_max - 1) + yi)`, and entry `t` among them is the slot of the
/// corner at `corner_offset(t)`.
pub proof fn lemma_index_of_quad(x_max: int, y_max: int, xi: int, yi: int, t: int)
    requires
        0 <= xi,
        xi + 1 < x_max,
        0 <= yi,
        yi + 1 < y_max,
        0 <= t < 6,
    ensures
        0 <= 6 * (xi * (y_max - 1) + yi) + t < 6 * quad_count(x_max, y_max),
        quad_anchor(y_max, 6 * (xi * (y_max - 1) + yi) + t) == (xi, yi),
        index_at(y_max, 6 * (xi * (y_max - 1) + yi) + t) == flat_index(
            xi + corner_offset(t).0,
            yi + corner_offset(t).1,
            y_max,
        ),
{
    let width = y_max - 1;
    let quad = xi * width + yi;
    let j = 6 * quad + t;
    assert(j / 6 == quad && j % 6 == t);
    lemma_fundamental_div_mod_converse(quad, width, xi, yi);
    assert(0 <= xi * width && xi * width + width <= (x_max - 1) * width) by (nonlinear_arith)
        requires
            0 <= xi,
            xi + 1 <= x_max - 1,
            0 < width,
    ;
}

/// Every entry of the index buffer belongs to a quad whose anchor has a
/// right and a lower neighbour in the grid, and is the slot of a cell of the
/// grid.
pub proof fn lemma_index_within_grid(x_max: int, y_max: int, j: int)
    requires
        grid_ok(x_max, y_max),
        0 <= j < 6 * quad_count(x_max, y_max),
    ensures
        0 <= quad_anchor(y_max, j).0,
        quad_anchor(y_max, j).0 + 1 < x_max,
        0 <= quad_anchor(y_max, j).1,
        quad_anchor(y_max, j).1 + 1 < y_max,
        grid_indices(x_max, y_max).len() == 6 * quad_count(x_max, y_max),
        grid_indices(x_max, y_max)[j] == index_at(y_max, j),
        0 <= grid_indices(x_max, y_max)[j] < x_max * y_max,
{
    let quad = j / 6;
    let width = y_max - 1;
    assert(width > 0) by (nonlinear_arith)
        requires
            0 < (x_max - 1) * width,
            0 < x_max,
            0 <= width,
    ;
    lemma_fundamental_div_mod(quad, width);
    lemma_mod_pos_bound(quad, width);
    lemma_div_pos_is_pos(quad, width);
    let xi = quad / width;
    let yi = quad % width;
    assert(xi < x_max - 1) by (nonlinear_arith)
        requires
            quad == width * xi + yi,
            0 <= yi,
            quad < (x_max - 1) * width,
            0 < width,
    ;
    let offset = corner_offset(j % 6);
    lemma_flat_index_bound(x_max, y_max, xi + offset.0, yi + offset.1);
}

/// No entry of the index buffer reaches the number of cells.
pub proof fn lemma_indices_below_cells(x_max: int, y_max: int)
    requires
        grid_ok(x_max, y_max),
    ensures
        forall|j: int|
            0 <= j < grid_indices(x_max, y_max).len() ==> index_at(y_max, j) == (
            #[trigger] grid_indices(x_max, y_max)[j]) < x_max * y_max,
{
    lemma_flat_index_bound(x_max, y_max, 0, 0);
    let indices = grid_indices(x_max, y_max);
    assert forall|j: int| 0 <= j < indices.len() implies index_at(y_max, j) == (
    #[trigger] indices[j]) < x_max * y_max by {
        lemma_index_within_grid(x_max, y_max, j);
    }
}

/// The three entries of a triangle are corners of one quad of the grid. The
/// even triangle of a quad is `(anchor, down_right, right)`, the odd one
/// `(anchor, down, down_right)`.
pub proof fn lemma_triangle_corners(x_max: int, y_max: int, tri: int)
    requires
        grid_ok(x_max, y_max),
        0 <= tri < 2 * quad_count(x_max, y_max),
    ensures
        ({
            let (xi, yi) = quad_anchor(y_max, 3 * tri);
            let indices = grid_indices(x_max, y_max);
            &&& indices.len() == 3 * (2 * quad_count(x_max, y_max))
            &&& 0 <= xi && xi + 1 < x_max
            &&& 0 <= yi && yi + 1 < y_max
            &&& indices[3 * tri] == flat_index(xi, yi, y_max)
            &&& tri % 2 == 0 ==> {
                &&& indices[3 * tri + 1] == flat_index(xi + 1, yi + 1, y_max)
                &&& indices[3 * tri + 2] == flat_index(xi + 1, yi, y_max)
            }
            &&& tri % 2 == 1 ==> {
                &&& indices[3 * tri + 1] == flat_index(xi, yi + 1, y_max)
                &&& indices[3 * tri + 2] == flat_index(xi + 1, yi + 1, y_max)
            }
        }),
{
    lemma_index_within_grid(x_max, y_max, 3 * tri);
    lemma_index_within_grid(x_max, y_max, 3 * tri + 1);
    lemma_index_within_grid(x_max, y_max, 3 * tri + 2);
    assert((3 * tri + 1) / 6 == (3 * tri) / 6 && (3 * tri + 2) / 6 == (3 * tri) / 6);
}

/// Builds the index buffer of a grid of `x_max` by `y_max` cells.
pub fn build_indices(x_max: usize, y_max: usize) -> (indices: Vec<u32>)
    requires
        grid_ok(x_max as int, y_max as int),
    ensures
        indices@ == grid_indices(x_max as int, y_max as int),
        indices@.len() == 3 * (2 * (x_max - 1) * (y_max - 1)),
        forall|j: int| 0 <= j < indices@.len() ==> (#[trigger] indices@[j]) < x_max * y_max,
{
    let mut indices: Vec<u32> = Vec::new();
    let mut xi: usize = 0;
    while xi + 1 < x_max
        invariant
            grid_ok(x_max as int, y_max as int),
            xi + 1 <= x_max,
            indices@.len() == 6 * (xi * (y_max - 1)),
            forall|j: int| 0 <= j < indices@.len() ==> indices@[j] == index_at(y_max as int, j),
        decreases x_max - xi,
    {
        let mut yi: usize = 0;
        while yi + 1 < y_max
            invariant
                grid_ok(x_max as int, y_max as int),
                xi + 1 < x_max,
                yi + 1 <= y_max,
                indices@.len() == 6 * (xi * (y_max - 1) + yi),
                forall|j: int| 0 <= j < indices@.len() ==> indices@[j] == index_at(y_max as int, j),
            decreases y_max - yi,
        {
            proof {
                lemma_flat_index_bound(x_max as int, y_max as int, xi as int, yi as int);
                lemma_flat_index_bound(x_max as int, y_max as int, xi + 1, yi + 1);
                lemma_mul_is_distributive_add_other_way(y_max as int, xi as int, 1);
            }
            let anchor: usize = xi * y_max + yi;
            let right: usize = anchor + y_max;
            let down: usize = anchor + 1;
            let down_right: usize = right + 1;
            let ghost before = indices@;
            indices.push(anchor as u32);
            indices.push(down_right as u32);
            indices.push(right as u32);
            indices.push(anchor as u32);
            indices.push(down as u32);
            indices.push(down_right as u32);
            proof {
                let base = 6 * (xi * (y_max - 1) + yi);
                assert forall|j: int| 0 <= j < indices@.len() implies indices@[j] == index_at(
                    y_max as int,
                    j,
                ) by {
                    if j < base {
                        assert(indices@[j] == before[j]);
                    } else {
                        lemma_index_of_quad(
                            x_max as int,
                            y_max as int,
                            xi as int,
                            yi as int,
                            j - base,
                        );
                    }
                }
            }
            yi += 1;
        }
        proof {
            lemma_mul_is_distributive_add_other_way(y_max - 1, xi as int, 1);
        }
        xi += 1;
    }
    proof {
        assert(xi == x_max - 1);
        assert(indices@ =~= grid_indices(x_max as int, y_max as int));
        lemma_mul_is_associative(2, x_max - 1, y_max - 1);
        lemma_indices_below_cells(x_max as int, y_max as int);
    }
    indices
}

} // verus!
