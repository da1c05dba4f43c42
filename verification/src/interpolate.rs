//! The smooth bivariate interpolator: a bilinear blend of the four control
//! values round a fine cell, weighted by the ease curve `S(t) = 3t^2 - 2t^3`
//! in both axes.
//!
//! The blend is evaluated exactly, as a numerator over `step^6`, and rounded
//! down once to a fixed-point scalar.

use vstd::prelude::*;
use vstd::arithmetic::mul::{
    lemma_mul_is_associative, lemma_mul_nonnegative, lemma_mul_upper_bound,
};
use vstd::arithmetic::div_mod::{
    lemma_div_is_ordered, lemma_div_multiples_vanish, lemma_fundamental_div_mod_converse,
};
use crate::fixed::ONE;
use crate::lattice::{lattice_valid, ControlLattice};

verus! {

/// Largest step between two lattice points. Up to here the exact blend of a
/// cell fits in 128 bits.
pub const MAX_STEP: usize = 0x1_0000;

/// `n` to the third power.
pub open spec fn cube(n: int) -> int {
    n * n * n
}

/// The ease curve `S(t) = 3t^2 - 2t^3` at `t = r / step`, as a numerator over
/// `cube(step)`.
pub open spec fn ease(r: int, step: int) -> int {
    3 * r * r * step - 2 * r * r * r
}

/// The bilinear form `a + (b - a) Sx + (c - a) Sy + (a - b - c + d) Sx Sy`
/// with `Sx = sx / den` and `Sy = sy / den`, as a numerator over `den * den`.
pub open spec fn blend(a: int, b: int, c: int, d: int, sx: int, sy: int, den: int) -> int {
    a * den * den + (b - a) * sx * den + (c - a) * sy * den + (a - b - c + d) * sx * sy
}

/// The interpolated height at fine cell `(xi, yi)`: the blend of the control
/// values at the corners of lattice cell `(xi / step, yi / step)`, rounded down
/// to a fixed-point scalar.
pub open spec fn interp(cells: Seq<Seq<u32>>, xi: int, yi: int, step: int) -> int {
    let cx = xi / step;
    let cy = yi / step;
    let den = cube(step);
    blend(
        cells[cx][cy] as int,
        cells[cx + 1][cy] as int,
        cells[cx][cy + 1] as int,
        cells[cx + 1][cy + 1] as int,
        ease(xi % step, step),
        ease(yi % step, step),
        den,
    ) / (den * den)
}

/// Whether a lattice of `size` rows has both corners that fine coordinate
/// `coord` needs along one axis.
pub open spec fn in_lattice(size: int, coord: int, step: int) -> bool {
    0 <= coord && coord / step + 1 < size
}

/// The ease curve starts at 0, ends at 1 and stays between the two.
pub proof fn lemma_ease_range(r: int, step: int)
    requires
        0 <= r <= step,
    ensures
        0 <= ease(r, step) <= cube(step),
        r == 0 ==> ease(r, step) == 0,
        r == step ==> ease(r, step) == cube(step),
{
    let rr = r * r;
    let u = step - r;
    let uu = u * u;
    let e = ease(r, step);
    let k = cube(step);
    lemma_mul_is_associative(3, r, r);
    lemma_mul_is_associative(2, r, r);
    lemma_mul_is_associative(3, rr, step);
    lemma_mul_is_associative(2, rr, r);
    lemma_mul_nonnegative(r, r);
    lemma_mul_nonnegative(u, u);
    assert(e == 3 * (rr * step) - 2 * (rr * r));
    assert(rr * step == rr * r + rr * u) by (nonlinear_arith)
        requires
            step == r + u,
    ;
    assert(e == rr * r + 3 * (rr * u));
    lemma_mul_nonnegative(rr, r);
    lemma_mul_nonnegative(rr, u);
    let ru = r * u;
    lemma_mul_nonnegative(r, u);
    assert(step * step == rr + 2 * ru + uu) by (nonlinear_arith)
        requires
            step == r + u,
            rr == r * r,
            ru == r * u,
            uu == u * u,
    ;
    assert((rr + 2 * ru + uu) * step == rr * r + rr * u + 2 * (ru * r) + 2 * (ru * u) + uu * r
        + uu * u) by (nonlinear_arith)
        requires
            step == r + u,
    ;
    assert(ru * r == rr * u) by (nonlinear_arith)
        requires
            ru == r * u,
            rr == r * r,
    ;
    assert(ru * u == uu * r) by (nonlinear_arith)
        requires
            ru == r * u,
            uu == u * u,
    ;
    lemma_mul_nonnegative(uu, r);
    lemma_mul_nonnegative(uu, u);
    assert(k - e == 3 * (uu * r) + uu * u);
    if r == 0 {
        assert(rr == 0);
        assert(rr * r == 0 && rr * u == 0) by (nonlinear_arith)
            requires
                rr == 0,
        ;
    }
    if r == step {
        assert(uu == 0);
        assert(uu * r == 0 && uu * u == 0) by (nonlinear_arith)
            requires
                uu == 0,
        ;
    }
}

/// The blend written as a weighted sum of its four corners. The weights are
/// products of `sx`, `sy` and their complements, and add up to `den * den`.
pub proof fn lemma_blend_weights(a: int, b: int, c: int, d: int, sx: int, sy: int, den: int)
    ensures
        blend(a, b, c, d, sx, sy, den) == a * (den - sx) * (den - sy) + b * sx * (den - sy) + c * (
        den - sx) * sy + d * sx * sy,
{
    let dd = den * den;
    let xd = sx * den;
    let yd = sy * den;
    let xy = sx * sy;
    let p = (den - sx) * (den - sy);
    let q = sx * (den - sy);
    let r = (den - sx) * sy;
    assert(p == dd - xd - yd + xy) by (nonlinear_arith)
        requires
            p == (den - sx) * (den - sy),
            dd == den * den,
            xd == sx * den,
            yd == sy * den,
            xy == sx * sy,
    ;
    assert(q == xd - xy) by (nonlinear_arith)
        requires
            q == sx * (den - sy),
            xd == sx * den,
            xy == sx * sy,
    ;
    assert(r == yd - xy) by (nonlinear_arith)
        requires
            r == (den - sx) * sy,
            yd == sy * den,
            xy == sx * sy,
    ;
    lemma_mul_is_associative(a, den, den);
    lemma_mul_is_associative(b - a, sx, den);
    lemma_mul_is_associative(c - a, sy, den);
    lemma_mul_is_associative(a - b - c + d, sx, sy);
    lemma_mul_is_associative(a, den - sx, den - sy);
    lemma_mul_is_associative(b, sx, den - sy);
    lemma_mul_is_associative(c, den - sx, sy);
    lemma_mul_is_associative(d, sx, sy);
    assert(a * p == a * dd - a * xd - a * yd + a * xy) by (nonlinear_arith)
        requires
            p == dd - xd - yd + xy,
    ;
    assert(b * q == b * xd - b * xy) by (nonlinear_arith)
        requires
            q == xd - xy,
    ;
    assert(c * r == c * yd - c * xy) by (nonlinear_arith)
        requires
            r == yd - xy,
    ;
    assert((b - a) * xd == b * xd - a * xd) by (nonlinear_arith);
    assert((c - a) * yd == c * yd - a * yd) by (nonlinear_arith);
    assert((a - b - c + d) * xy == a * xy - b * xy - c * xy + d * xy) by (nonlinear_arith);
}

/// A blend lies between the least and the greatest of its corners.
pub proof fn lemma_blend_range(
    a: int,
    b: int,
    c: int,
    d: int,
    sx: int,
    sy: int,
    den: int,
    lo: int,
    hi: int,
)
    requires
        0 <= sx <= den,
        0 <= sy <= den,
        lo <= a <= hi,
        lo <= b <= hi,
        lo <= c <= hi,
        lo <= d <= hi,
    ensures
        lo * (den * den) <= blend(a, b, c, d, sx, sy, den) <= hi * (den * den),
{
    lemma_blend_weights(a, b, c, d, sx, sy, den);
    let p = (den - sx) * (den - sy);
    let q = sx * (den - sy);
    let r = (den - sx) * sy;
    let s = sx * sy;
    assert(p >= 0 && q >= 0 && r >= 0 && s >= 0) by (nonlinear_arith)
        requires
            0 <= sx <= den,
            0 <= sy <= den,
            p == (den - sx) * (den - sy),
            q == sx * (den - sy),
            r == (den - sx) * sy,
            s == sx * sy,
    ;
    assert(p + q + r + s == den * den) by (nonlinear_arith)
        requires
            p == (den - sx) * (den - sy),
            q == sx * (den - sy),
            r == (den - sx) * sy,
            s == sx * sy,
    ;
    assert(a * (den - sx) * (den - sy) == a * p) by (nonlinear_arith)
        requires
            p == (den - sx) * (den - sy),
    ;
    assert(b * sx * (den - sy) == b * q) by (nonlinear_arith)
        requires
            q == sx * (den - sy),
    ;
    assert(c * (den - sx) * sy == c * r) by (nonlinear_arith)
        requires
            r == (den - sx) * sy,
    ;
    assert(d * sx * sy == d * s) by (nonlinear_arith)
        requires
            s == sx * sy,
    ;
    assert(lo * p <= a * p <= hi * p) by (nonlinear_arith)
        requires
            lo <= a <= hi,
            p >= 0,
    ;
    assert(lo * q <= b * q <= hi * q) by (nonlinear_arith)
        requires
            lo <= b <= hi,
            q >= 0,
    ;
    assert(lo * r <= c * r <= hi * r) by (nonlinear_arith)
        requires
            lo <= c <= hi,
            r >= 0,
    ;
    assert(lo * s <= d * s <= hi * s) by (nonlinear_arith)
        requires
            lo <= d <= hi,
            s >= 0,
    ;
    assert(lo * p + lo * q + lo * r + lo * s == lo * (den * den)) by (nonlinear_arith)
        requires
            p + q + r + s == den * den,
    ;
    assert(hi * p + hi * q + hi * r + hi * s == hi * (den * den)) by (nonlinear_arith)
        requires
            p + q + r + s == den * den,
    ;
}

/// The surface has no seam between lattice cells. On the near edge of a
/// cell, where the offset is zero, the blend leaves the far corners out; on
/// the far edge, where the ease curve reaches one, it is the blend on the
/// near edge of the next cell, whatever that cell's far corners `b2` and `d2`
/// are. The same holds along the other axis.
pub proof fn lemma_blend_continuous(
    a: int,
    b: int,
    c: int,
    d: int,
    b2: int,
    d2: int,
    s: int,
    den: int,
)
    ensures
        blend(a, b, c, d, 0, s, den) == blend(a, b2, c, d2, 0, s, den),
        blend(a, b, c, d, den, s, den) == blend(b, b2, d, d2, 0, s, den),
        blend(a, b, c, d, s, 0, den) == blend(a, b, b2, d2, s, 0, den),
        blend(a, b, c, d, s, den, den) == blend(c, d, b2, d2, s, 0, den),
{
    let dd = den * den;
    let sd = s * den;
    lemma_mul_is_associative(a, den, den);
    lemma_mul_is_associative(b, den, den);
    lemma_mul_is_associative(c, den, den);
    lemma_mul_is_associative(b - a, den, den);
    lemma_mul_is_associative(c - a, den, den);
    lemma_mul_is_associative(b - a, s, den);
    lemma_mul_is_associative(c - a, s, den);
    lemma_mul_is_associative(d - b, s, den);
    lemma_mul_is_associative(d - c, s, den);
    lemma_mul_is_associative(a - b - c + d, den, s);
    lemma_mul_is_associative(a - b - c + d, s, den);
    assert(den * s == sd) by (nonlinear_arith)
        requires
            sd == s * den,
    ;
    assert(a * dd + (b - a) * dd == b * dd) by (nonlinear_arith);
    assert(a * dd + (c - a) * dd == c * dd) by (nonlinear_arith);
    assert((c - a) * sd + (a - b - c + d) * sd == (d - b) * sd) by (nonlinear_arith);
    assert((b - a) * sd + (a - b - c + d) * sd == (d - c) * sd) by (nonlinear_arith);
    assert((b2 - b) * 0 * den == 0 && (b - b2 - d + d2) * 0 * s == 0) by (nonlinear_arith);
    assert((b2 - c) * 0 * den == 0 && (c - d - b2 + d2) * s * 0 == 0) by (nonlinear_arith);
}

/// The cube of a positive step is positive, and so is its square.
pub proof fn lemma_cube_positive(step: int)
    requires
        0 < step,
    ensures
        0 < cube(step),
        0 < cube(step) * cube(step),
{
    let k = step * step * step;
    assert(0 < k) by (nonlinear_arith)
        requires
            0 < step,
            k == step * step * step,
    ;
    assert(0 < k * k) by (nonlinear_arith)
        requires
            0 < k,
    ;
}

/// An interpolated height lies between any two bounds that hold of the four
/// control values round its cell.
pub proof fn lemma_interp_between(
    cells: Seq<Seq<u32>>,
    xi: int,
    yi: int,
    step: int,
    lo: int,
    hi: int,
)
    requires
        0 < step,
        0 <= xi,
        0 <= yi,
        lo <= cells[xi / step][yi / step] <= hi,
        lo <= cells[xi / step + 1][yi / step] <= hi,
        lo <= cells[xi / step][yi / step + 1] <= hi,
        lo <= cells[xi / step + 1][yi / step + 1] <= hi,
    ensures
        lo <= interp(cells, xi, yi, step) <= hi,
{
    let cx = xi / step;
    let cy = yi / step;
    let den = cube(step);
    let dd = den * den;
    let sx = ease(xi % step, step);
    let sy = ease(yi % step, step);
    let num = blend(
        cells[cx][cy] as int,
        cells[cx + 1][cy] as int,
        cells[cx][cy + 1] as int,
        cells[cx + 1][cy + 1] as int,
        sx,
        sy,
        den,
    );
    lemma_cube_positive(step);
    lemma_ease_range(xi % step, step);
    lemma_ease_range(yi % step, step);
    lemma_blend_range(
        cells[cx][cy] as int,
        cells[cx + 1][cy] as int,
        cells[cx][cy + 1] as int,
        cells[cx + 1][cy + 1] as int,
        sx,
        sy,
        den,
        lo,
        hi,
    );
    lemma_div_is_ordered(lo * dd, num, dd);
    lemma_div_is_ordered(num, hi * dd, dd);
    lemma_div_multiples_vanish(lo, dd);
    lemma_div_multiples_vanish(hi, dd);
    assert(lo * dd == dd * lo) by (nonlinear_arith);
    assert(hi * dd == dd * hi) by (nonlinear_arith);
}

/// On a valid lattice every interpolated height is a scalar in `[0, 1)`.
pub proof fn lemma_interp_unit_range(cells: Seq<Seq<u32>>, xi: int, yi: int, step: int)
    requires
        lattice_valid(cells),
        0 < step,
        in_lattice(cells.len() as int, xi, step),
        in_lattice(cells.len() as int, yi, step),
    ensures
        0 <= interp(cells, xi, yi, step) < ONE,
{
    lemma_cell_in_range(xi, step);
    lemma_cell_in_range(yi, step);
    lemma_interp_between(cells, xi, yi, step, 0, ONE - 1);
}

/// The lattice cell of a fine coordinate, and the offset inside it.
pub proof fn lemma_cell_in_range(coord: int, step: int)
    requires
        0 < step,
        0 <= coord,
    ensures
        0 <= coord / step,
        0 <= coord % step < step,
        coord == step * (coord / step) + coord % step,
{
    vstd::arithmetic::div_mod::lemma_fundamental_div_mod(coord, step);
    vstd::arithmetic::div_mod::lemma_mod_pos_bound(coord, step);
    vstd::arithmetic::div_mod::lemma_div_pos_is_pos(coord, step);
}

/// At a fine cell that sits on a lattice point the interpolated height is
/// the control value of that point, with no rounding.
pub proof fn lemma_interp_at_lattice_point(cells: Seq<Seq<u32>>, kx: int, ky: int, step: int)
    requires
        0 < step,
        0 <= kx,
        0 <= ky,
    ensures
        interp(cells, kx * step, ky * step, step) == cells[kx][ky],
{
    lemma_fundamental_div_mod_converse(kx * step, step, kx, 0);
    lemma_fundamental_div_mod_converse(ky * step, step, ky, 0);
    lemma_flat_cell(
        cells[kx][ky] as int,
        cells[kx + 1][ky] as int,
        cells[kx][ky + 1] as int,
        cells[kx + 1][ky + 1] as int,
        step,
    );
}

/// With both offsets at zero the blend is its first corner.
proof fn lemma_flat_cell(a: int, b: int, c: int, d: int, step: int)
    requires
        0 < step,
    ensures
        blend(a, b, c, d, ease(0, step), ease(0, step), cube(step)) / (cube(step) * cube(step))
            == a,
{
    let den = cube(step);
    lemma_cube_positive(step);
    lemma_ease_range(0, step);
    assert(blend(a, b, c, d, 0, 0, den) == (den * den) * a) by (nonlinear_arith);
    lemma_div_multiples_vanish(a, den * den);
}

/// Where the four control values round a cell are equal, every height in
/// the cell is that value.
pub proof fn lemma_interp_of_level_cell(cells: Seq<Seq<u32>>, xi: int, yi: int, step: int)
    requires
        0 < step,
        0 <= xi,
        0 <= yi,
        cells[xi / step + 1][yi / step] == cells[xi / step][yi / step],
        cells[xi / step][yi / step + 1] == cells[xi / step][yi / step],
        cells[xi / step + 1][yi / step + 1] == cells[xi / step][yi / step],
    ensures
        interp(cells, xi, yi, step) == cells[xi / step][yi / step],
{
    let level = cells[xi / step][yi / step] as int;
    lemma_interp_between(cells, xi, yi, step, level, level);
}

/// A product of three factors is bounded by the product of their bounds.
proof fn lemma_product_bound(a: int, x: int, y: int, amax: int, xmax: int, ymax: int)
    requires
        0 <= a <= amax,
        0 <= x <= xmax,
        0 <= y <= ymax,
    ensures
        0 <= a * x <= amax * xmax,
        0 <= a * x * y <= amax * xmax * ymax,
{
    lemma_mul_upper_bound(a, amax, x, xmax);
    lemma_mul_nonnegative(a, x);
    lemma_mul_upper_bound(a * x, amax * xmax, y, ymax);
    lemma_mul_nonnegative(a * x, y);
}

/// The ease curve at `r / step`, as a numerator over `cube(step)`.
fn ease_weight(r: u64, step: u64) -> (w: u128)
    requires
        0 < step <= MAX_STEP,
        r < step,
    ensures
        w == ease(r as int, step as int),
        w <= cube(step as int),
{
    let r: u128 = r as u128;
    let s: u128 = step as u128;
    proof {
        lemma_ease_range(r as int, s as int);
        lemma_product_bound(r as int, r as int, 3 * s - 2 * r, 0x1_0000, 0x1_0000, 0x3_0000);
        let e = 3 * r * r * s - 2 * r * r * r;
        assert(e == r * r * (3 * s - 2 * r)) by (nonlinear_arith)
            requires
                e == 3 * r * r * s - 2 * r * r * r,
        ;
    }
    let square: u128 = r * r;
    let rest: u128 = 3 * s - 2 * r;
    square * rest
}

/// The interpolated height at fine cell `(xi, yi)`, with coordinates wide
/// enough for a doubled grid.
pub(crate) fn interpolate_wide(lattice: &ControlLattice, xi: u64, yi: u64, step: u64) -> (z: i64)
    requires
        lattice.wf(),
        0 < step <= MAX_STEP,
        in_lattice(lattice.spec_size() as int, xi as int, step as int),
        in_lattice(lattice.spec_size() as int, yi as int, step as int),
    ensures
        z == interp(lattice@, xi as int, yi as int, step as int),
        0 <= z < ONE,
{
    let size: usize = lattice.size();
    assert(xi / step + 1 < size && yi / step + 1 < size);
    let cx: usize = (xi / step) as usize;
    let cy: usize = (yi / step) as usize;
    let a: u128 = lattice.get(cx, cy) as u128;
    let b: u128 = lattice.get(cx + 1, cy) as u128;
    let c: u128 = lattice.get(cx, cy + 1) as u128;
    let d: u128 = lattice.get(cx + 1, cy + 1) as u128;
    let s: u128 = step as u128;
    proof {
        lemma_product_bound(s as int, s as int, s as int, 0x1_0000, 0x1_0000, 0x1_0000);
        lemma_cube_positive(s as int);
    }
    let den: u128 = s * s * s;
    let wx: u128 = ease_weight(xi % step, step);
    let wy: u128 = ease_weight(yi % step, step);
    let ux: u128 = den - wx;
    let uy: u128 = den - wy;
    proof {
        let top: int = 0x1_0000_0000_0000;
        lemma_product_bound(a as int, ux as int, uy as int, ONE as int, top, top);
        lemma_product_bound(b as int, wx as int, uy as int, ONE as int, top, top);
        lemma_product_bound(c as int, ux as int, wy as int, ONE as int, top, top);
        lemma_product_bound(d as int, wx as int, wy as int, ONE as int, top, top);
        lemma_product_bound(den as int, den as int, 1, top, top, 1);
        lemma_blend_weights(
            a as int,
            b as int,
            c as int,
            d as int,
            wx as int,
            wy as int,
            den as int,
        );
        lemma_interp_unit_range(lattice@, xi as int, yi as int, step as int);
    }
    let num: u128 = a * ux * uy + b * wx * uy + c * ux * wy + d * wx * wy;
    let z: u128 = num / (den * den);
    z as i64
}

/// The interpolated height at fine cell `(xi, yi)` of a grid with `step`
/// fine cells between neighbouring lattice points.
///
/// The lattice must reach one point beyond the cell of `(xi, yi)` in both
/// axes.
pub fn interpolate(lattice: &ControlLattice, xi: usize, yi: usize, step: usize) -> (z: i64)
    requires
        lattice.wf(),
        0 < step <= MAX_STEP,
        in_lattice(lattice.spec_size() as int, xi as int, step as int),
        in_lattice(lattice.spec_size() as int, yi as int, step as int),
    ensures
        z == interp(lattice@, xi as int, yi as int, step as int),
        0 <= z < ONE,
{
    interpolate_wide(lattice, xi as u64, yi as u64, step as u64)
}

} // verus!
