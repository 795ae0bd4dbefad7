//! Geometry on the coordinate grid: a rectangle test and two tests on line
//! segments. All three are exact: they compare whole numbers and never round.

use vstd::prelude::*;
use crate::fixed::{diff_product, UNIT_SQUARED};

verus! {

/// A point or a displacement on the coordinate grid.
#[derive(Clone, Copy, Debug, PartialEq, Eq, Structural)]
pub struct Vector2 {
    pub x: i32,
    pub y: i32,
}

impl Vector2 {
    pub fn new(x: i32, y: i32) -> (v: Vector2)
        ensures
            v == (Vector2 { x, y }),
    {
        Vector2 { x, y }
    }
}

/// A point lies in a rectangle when its coordinates are at most those of the
/// top right corner and at least those of the bottom left one.
pub open spec fn in_rect(x: int, y: int, left: int, bottom: int, right: int, top: int) -> bool {
    left <= x && x <= right && bottom <= y && y <= top
}

/// The point `(px, py)` lies within `expand` of the rectangle with the given
/// centre and half extents: it lies in the rectangle grown by `expand` on
/// every side. For a circle of radius `expand` around the point this is a
/// square approximation of "the circle touches the rectangle".
pub open spec fn in_expanded_rect(
    px: int,
    py: int,
    center: Vector2,
    half_extents: Vector2,
    expand: int,
) -> bool {
    in_rect(
        px,
        py,
        center.x - half_extents.x - expand,
        center.y - half_extents.y - expand,
        center.x + half_extents.x + expand,
        center.y + half_extents.y + expand,
    )
}

/// The scalar product of the directions `a - b` and `c - d`, in squared grid steps.
pub open spec fn direction_dot(a: Vector2, b: Vector2, c: Vector2, d: Vector2) -> int {
    (a.x - b.x) * (c.x - d.x) + (a.y - b.y) * (c.y - d.y)
}

/// The directions `a - b` and `c - d` have scalar product one (one squared
/// world unit). This is the alignment test that the bounce classification
/// uses; it is not parallelism in the usual sense.
pub open spec fn segments_parallel(a: Vector2, b: Vector2, c: Vector2, d: Vector2) -> bool {
    direction_dot(a, b, c, d) == UNIT_SQUARED
}

/// The cross product of the directions `b - a` and `d - c`: the common
/// denominator of the two intersection parameters. It is zero exactly when
/// the segments are parallel or one of them is a single point.
pub open spec fn cross_denominator(a: Vector2, b: Vector2, c: Vector2, d: Vector2) -> int {
    (d.x - c.x) * (a.y - b.y) - (a.x - b.x) * (d.y - c.y)
}

/// Numerator of the parameter along `a..b` at which the two lines meet.
pub open spec fn first_numerator(a: Vector2, b: Vector2, c: Vector2, d: Vector2) -> int {
    (c.y - d.y) * (a.x - c.x) + (d.x - c.x) * (a.y - c.y)
}

/// Numerator of the parameter along `c..d` at which the two lines meet.
pub open spec fn second_numerator(a: Vector2, b: Vector2, c: Vector2, d: Vector2) -> int {
    (a.y - b.y) * (a.x - c.x) + (b.x - a.x) * (a.y - c.y)
}

/// The fraction `num / den` exists and lies in `[0, 1]`.
pub open spec fn ratio_in_unit_interval(num: int, den: int) -> bool {
    den != 0 && 0 <= num * den && num * den <= den * den
}

/// The segments `a..b` and `c..d` intersect: either they have the same end
/// points, or the lines through them meet at parameters that both lie in
/// `[0, 1]`. Segments with a zero denominator (parallel, collinear or
/// degenerate) and different end points do not intersect.
pub open spec fn segments_intersect(a: Vector2, b: Vector2, c: Vector2, d: Vector2) -> bool {
    (a == c && b == d) || (ratio_in_unit_interval(
        first_numerator(a, b, c, d),
        cross_denominator(a, b, c, d),
    ) && ratio_in_unit_interval(second_numerator(a, b, c, d), cross_denominator(a, b, c, d)))
}

/// `ratio_in_unit_interval` decided by signs, without a product.
pub proof fn lemma_ratio_by_sign(num: int, den: int)
    by (nonlinear_arith)
    ensures
        ratio_in_unit_interval(num, den) <==> (den > 0 && 0 <= num && num <= den) || (den < 0
            && den <= num && num <= 0),
{
}

/// Cramer's rule in the plane, for the directions `r`, `s` and the offset
/// `u`: with cross products written `x`, `(u x s) r - (u x r) s == (r x s) u`.
proof fn lemma_cramer(ux: int, uy: int, rx: int, ry: int, sx: int, sy: int)
    ensures
        (ux * sy - uy * sx) * rx - (ux * ry - uy * rx) * sx == (rx * sy - ry * sx) * ux,
        (ux * sy - uy * sx) * ry - (ux * ry - uy * rx) * sy == (rx * sy - ry * sx) * uy,
{
    assert((ux * sy - uy * sx) * rx == ux * sy * rx - uy * sx * rx) by (nonlinear_arith);
    assert((ux * ry - uy * rx) * sx == ux * ry * sx - uy * rx * sx) by (nonlinear_arith);
    assert((rx * sy - ry * sx) * ux == rx * sy * ux - ry * sx * ux) by (nonlinear_arith);
    assert(uy * sx * rx == uy * rx * sx) by (nonlinear_arith);
    assert(ux * sy * rx == rx * sy * ux) by (nonlinear_arith);
    assert(ux * ry * sx == ry * sx * ux) by (nonlinear_arith);

    assert((ux * sy - uy * sx) * ry == ux * sy * ry - uy * sx * ry) by (nonlinear_arith);
    assert((ux * ry - uy * rx) * sy == ux * ry * sy - uy * rx * sy) by (nonlinear_arith);
    assert((rx * sy - ry * sx) * uy == rx * sy * uy - ry * sx * uy) by (nonlinear_arith);
    assert(ux * sy * ry == ux * ry * sy) by (nonlinear_arith);
    assert(uy * sx * ry == ry * sx * uy) by (nonlinear_arith);
    assert(uy * rx * sy == rx * sy * uy) by (nonlinear_arith);
}

/// The two parameters solve the system of the two lines: the point at
/// parameter `first_numerator / cross_denominator` on `a..b` is the point at
/// parameter `second_numerator / cross_denominator` on `c..d`. Stated without
/// division, after multiplying by the denominator.
pub proof fn lemma_parameters_meet(a: Vector2, b: Vector2, c: Vector2, d: Vector2)
    ensures
        cross_denominator(a, b, c, d) * a.x + first_numerator(a, b, c, d) * (b.x - a.x)
            == cross_denominator(a, b, c, d) * c.x + second_numerator(a, b, c, d) * (d.x - c.x),
        cross_denominator(a, b, c, d) * a.y + first_numerator(a, b, c, d) * (b.y - a.y)
            == cross_denominator(a, b, c, d) * c.y + second_numerator(a, b, c, d) * (d.y - c.y),
{
    let (ux, uy) = (c.x - a.x, c.y - a.y);
    let (rx, ry) = (b.x - a.x, b.y - a.y);
    let (sx, sy) = (d.x - c.x, d.y - c.y);
    let den = cross_denominator(a, b, c, d);
    let n1 = first_numerator(a, b, c, d);
    let n2 = second_numerator(a, b, c, d);
    lemma_cramer(ux, uy, rx, ry, sx, sy);
    assert(n1 == ux * sy - uy * sx) by (nonlinear_arith)
        requires
            n1 == (-sy) * (-ux) + sx * (-uy),
    ;
    assert(n2 == ux * ry - uy * rx) by (nonlinear_arith)
        requires
            n2 == (-ry) * (-ux) + rx * (-uy),
    ;
    assert(den == rx * sy - ry * sx) by (nonlinear_arith)
        requires
            den == sx * (-ry) - (-rx) * sy,
    ;
    assert(den * a.x + den * ux == den * c.x) by (nonlinear_arith)
        requires
            ux == c.x - a.x,
    ;
    assert(den * a.y + den * uy == den * c.y) by (nonlinear_arith)
        requires
            uy == c.y - a.y,
    ;
}

/// Whether the point `(x, y)` lies in the rectangle with the given sides,
/// the sides included.
pub fn point_in_rect(x: i64, y: i64, left: i64, bottom: i64, right: i64, top: i64) -> (inside: bool)
    ensures
        inside == in_rect(x as int, y as int, left as int, bottom as int, right as int, top as int),
{
    x >= left && x <= right && y >= bottom && y <= top
}

/// Whether the point `(px, py)` lies in the rectangle around `center` with
/// the given half extents, grown by `expand` on every side.
pub fn point_in_expanded_rect(
    px: i32,
    py: i32,
    center: Vector2,
    half_extents: Vector2,
    expand: i32,
) -> (inside: bool)
    ensures
        inside == in_expanded_rect(px as int, py as int, center, half_extents, expand as int),
{
    let cx: i64 = center.x as i64;
    let cy: i64 = center.y as i64;
    let hx: i64 = half_extents.x as i64;
    let hy: i64 = half_extents.y as i64;
    let e: i64 = expand as i64;
    point_in_rect(px as i64, py as i64, cx - hx - e, cy - hy - e, cx + hx + e, cy + hy + e)
}

/// Whether the directions `a - b` and `c - d` have scalar product one.
pub fn is_vector_parallel(a: Vector2, b: Vector2, c: Vector2, d: Vector2) -> (parallel: bool)
    ensures
        parallel == segments_parallel(a, b, c, d),
{
    let abx: i64 = a.x as i64 - b.x as i64;
    let aby: i64 = a.y as i64 - b.y as i64;
    let cdx: i64 = c.x as i64 - d.x as i64;
    let cdy: i64 = c.y as i64 - d.y as i64;
    let dot: i128 = diff_product(abx, cdx) + diff_product(aby, cdy);
    dot == UNIT_SQUARED as i128
}

/// Whether `num / den` exists and lies in `[0, 1]`.
fn in_unit_interval(num: i128, den: i128) -> (inside: bool)
    ensures
        inside == ratio_in_unit_interval(num as int, den as int),
{
    proof {
        lemma_ratio_by_sign(num as int, den as int);
    }
    if den > 0 {
        0 <= num && num <= den
    } else if den < 0 {
        den <= num && num <= 0
    } else {
        false
    }
}

/// Whether the segments `a..b` and `c..d` intersect. Segments whose lines
/// never meet in a single point do not intersect, unless their end points
/// are the same.
pub fn is_line_intersected(a: Vector2, b: Vector2, c: Vector2, d: Vector2) -> (hit: bool)
    ensures
        hit == segments_intersect(a, b, c, d),
{
    if a.x == c.x && a.y == c.y && b.x == d.x && b.y == d.y {
        return true;
    }
    let ab_x: i64 = a.x as i64 - b.x as i64;
    let ab_y: i64 = a.y as i64 - b.y as i64;
    let dc_x: i64 = d.x as i64 - c.x as i64;
    let dc_y: i64 = d.y as i64 - c.y as i64;
    let ac_x: i64 = a.x as i64 - c.x as i64;
    let ac_y: i64 = a.y as i64 - c.y as i64;

    let den: i128 = diff_product(dc_x, ab_y) - diff_product(ab_x, dc_y);
    let ta: i128 = diff_product(-dc_y, ac_x) + diff_product(dc_x, ac_y);
    if !in_unit_interval(ta, den) {
        return false;
    }
    let tb: i128 = diff_product(ab_y, ac_x) + diff_product(-ab_x, ac_y);
    in_unit_interval(tb, den)
}

} // verus!
