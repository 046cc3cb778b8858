//! Integer canvas geometry and the fixed-point normalized space shared by all clients.
//!
//! A client draws in its own canvas coordinates. The canonical store keeps every
//! point in a normalized space in which the client's canvas rectangle spans
//! `0..UNIT` on each axis, so clients with differently sized canvases see the
//! same drawing, scaled to their own rectangle.
use vstd::arithmetic::div_mod::{
    lemma_div_is_ordered, lemma_fundamental_div_mod, lemma_fundamental_div_mod_converse,
};
use vstd::prelude::*;

verus! {

/// Number of normalized units that one full canvas extent maps to.
pub const UNIT: i64 = 1_000_000;

/// A point, in canvas coordinates or in normalized coordinates.
#[derive(Clone, Copy, Debug, PartialEq, Eq, Structural)]
pub struct Point {
    pub x: i64,
    pub y: i64,
}

/// A client's canvas rectangle: its top-left corner and its extent.
#[derive(Clone, Copy, Debug, PartialEq, Eq, Structural)]
pub struct Rect {
    pub min: Point,
    pub width: u32,
    pub height: u32,
}

impl Rect {
    /// A rectangle that can be mapped to and from the normalized space.
    pub open spec fn is_valid(self) -> bool {
        self.width > 0 && self.height > 0
    }

    pub fn new(min_x: i64, min_y: i64, width: u32, height: u32) -> (r: Rect)
        ensures
            r.min == (Point { x: min_x, y: min_y }),
            r.width == width,
            r.height == height,
    {
        Rect { min: Point { x: min_x, y: min_y }, width, height }
    }

    /// Whether both extents are positive.
    pub fn valid(&self) -> (r: bool)
        ensures
            r == self.is_valid(),
    {
        self.width > 0 && self.height > 0
    }
}

/// Clamps a mathematical integer into the range of `i64`.
pub open spec fn saturate(v: int) -> int {
    if v < i64::MIN {
        i64::MIN as int
    } else if v > i64::MAX {
        i64::MAX as int
    } else {
        v
    }
}

/// Normalized coordinate of canvas coordinate `v` on an axis whose canvas span
/// starts at `lo` and is `size` long: `(v - lo) / size`, in units of `1 / UNIT`,
/// rounded down.
pub open spec fn normalize_coord(v: int, lo: int, size: int) -> int {
    saturate((v - lo) * (UNIT as int) / size)
}

/// Canvas coordinate of normalized coordinate `n` on an axis whose canvas span
/// starts at `lo` and is `size` long: `n * size + lo`, rounded up. Rounding the
/// two directions opposite ways makes the round trip exact.
pub open spec fn denormalize_coord(n: int, lo: int, size: int) -> int {
    saturate(-((-(n * size)) / (UNIT as int)) + lo)
}

/// `p`, taken from the canvas space of `r` into the normalized space.
pub open spec fn point_from_canvas(p: Point, r: Rect) -> Point {
    Point {
        x: normalize_coord(p.x as int, r.min.x as int, r.width as int) as i64,
        y: normalize_coord(p.y as int, r.min.y as int, r.height as int) as i64,
    }
}

/// `p`, taken from the normalized space into the canvas space of `r`.
pub open spec fn point_to_canvas(p: Point, r: Rect) -> Point {
    Point {
        x: denormalize_coord(p.x as int, r.min.x as int, r.width as int) as i64,
        y: denormalize_coord(p.y as int, r.min.y as int, r.height as int) as i64,
    }
}

/// Division rounded towards negative infinity.
fn floor_div(num: i128, den: i128) -> (q: i128)
    requires
        den > 0,
        num > i128::MIN,
    ensures
        q as int == num as int / den as int,
{
    if num >= 0 {
        ((num as u128) / (den as u128)) as i128
    } else {
        let m: u128 = (-(num + 1)) as u128;
        let k: u128 = m / (den as u128);
        let q: i128 = -(k as i128) - 1;
        proof {
            let rem = num as int - q as int * den as int;
            assert((k as int) * (den as int) <= (m as int)) by (nonlinear_arith)
                requires
                    k as int == m as int / den as int,
                    den > 0,
            ;
            assert((m as int) - (k as int) * (den as int) < (den as int)) by (nonlinear_arith)
                requires
                    k as int == m as int / den as int,
                    den > 0,
            ;
            assert(q as int * den as int == -(k as int * den as int) - den as int) by (
            nonlinear_arith)
                requires
                    q as int == -(k as int) - 1,
            ;
            assert(0 <= rem < den);
            lemma_fundamental_div_mod_converse(num as int, den as int, q as int, rem);
        }
        q
    }
}

/// `v` clamped into the range of `i64`.
fn saturate_i64(v: i128) -> (r: i64)
    ensures
        r as int == saturate(v as int),
{
    if v < i64::MIN as i128 {
        i64::MIN
    } else if v > i64::MAX as i128 {
        i64::MAX
    } else {
        v as i64
    }
}

/// Exec form of `normalize_coord`.
fn normalize(v: i64, lo: i64, size: u32) -> (r: i64)
    requires
        size > 0,
    ensures
        r as int == normalize_coord(v as int, lo as int, size as int),
{
    let d: i128 = v as i128 - lo as i128;
    assert(-0x1_0000_0000_0000_0000_0000_0000 < d * 1_000_000 < 0x1_0000_0000_0000_0000_0000_0000)
        by (nonlinear_arith)
        requires
            -0x1_0000_0000_0000_0000 < d < 0x1_0000_0000_0000_0000,
    ;
    let q = floor_div(d * (UNIT as i128), size as i128);
    saturate_i64(q)
}

/// Exec form of `denormalize_coord`.
fn denormalize(n: i64, lo: i64, size: u32) -> (r: i64)
    requires
        size > 0,
    ensures
        r as int == denormalize_coord(n as int, lo as int, size as int),
{
    assert(-0x1_0000_0000_0000_0000_0000_0000 < (n as int) * (size as int)
        < 0x1_0000_0000_0000_0000_0000_0000) by (nonlinear_arith)
        requires
            -0x1_0000_0000_0000_0000 < n < 0x1_0000_0000_0000_0000,
            0 < size < 0x1_0000_0000,
    ;
    let q = floor_div(-(n as i128 * size as i128), UNIT as i128);
    saturate_i64(lo as i128 - q)
}

impl Point {
    /// This point, taken from the canvas space of `rect` into the normalized space.
    pub fn from_canvas(&self, rect: &Rect) -> (r: Point)
        requires
            rect.is_valid(),
        ensures
            r == point_from_canvas(*self, *rect),
    {
        Point {
            x: normalize(self.x, rect.min.x, rect.width),
            y: normalize(self.y, rect.min.y, rect.height),
        }
    }

    /// This point, taken from the normalized space into the canvas space of `rect`.
    pub fn to_canvas(&self, rect: &Rect) -> (r: Point)
        requires
            rect.is_valid(),
        ensures
            r == point_to_canvas(*self, *rect),
    {
        Point {
            x: denormalize(self.x, rect.min.x, rect.width),
            y: denormalize(self.y, rect.min.y, rect.height),
        }
    }
}

/// Largest offset from a rectangle's corner whose normalized coordinate needs no clamping.
pub const REACH: i64 = 9_223_372_036_854;

/// Whether `p` lies close enough to the corner of `r` that its normalized
/// coordinates are exact, not clamped.
pub open spec fn within_reach(p: Point, r: Rect) -> bool {
    &&& -REACH <= p.x - r.min.x <= REACH
    &&& -REACH <= p.y - r.min.y <= REACH
}

/// One axis of the round trip: rounding down on the way in and up on the way
/// out gives back the offset `d`, for any extent up to `UNIT`.
proof fn lemma_axis_round_trip(d: int, size: int)
    requires
        0 < size <= UNIT,
    ensures
        -((-(((d * UNIT) / size) * size)) / (UNIT as int)) == d,
{
    let n = (d * UNIT) / size;
    let r = (d * UNIT) % size;
    lemma_fundamental_div_mod(d * UNIT, size);
    assert(0 <= r < size);
    assert(d * UNIT == size * n + r);
    assert(-(n * size) == (UNIT as int) * (-d) + r) by (nonlinear_arith)
        requires
            d * UNIT == size * n + r,
    ;
    lemma_fundamental_div_mod_converse(-(n * size), UNIT as int, -d, r);
}

/// One axis of the way in: the normalized offset stays within `i64` when the
/// canvas offset is within `REACH`.
proof fn lemma_axis_in_range(d: int, size: int)
    requires
        0 < size,
        -REACH <= d <= REACH,
    ensures
        i64::MIN < (d * UNIT) / size <= i64::MAX,
{
    assert(-REACH * UNIT <= d * UNIT <= REACH * UNIT) by (nonlinear_arith)
        requires
            -REACH <= d <= REACH,
    ;
    if d >= 0 {
        assert(0 <= (d * UNIT) / size <= d * UNIT) by (nonlinear_arith)
            requires
                0 <= d,
                0 < size,
        ;
    } else {
        assert(d * UNIT <= (d * UNIT) / size < 0) by (nonlinear_arith)
            requires
                d < 0,
                0 < size,
        ;
    }
}

/// One axis of the round trip on any extent: the offset comes back at most
/// `size / UNIT` below `d`, and never above it.
proof fn lemma_axis_round_trip_within(d: int, size: int)
    requires
        0 < size,
    ensures
        d - size / (UNIT as int) <= -((-(((d * UNIT) / size) * size)) / (UNIT as int)) <= d,
{
    let n = (d * UNIT) / size;
    let r = (d * UNIT) % size;
    lemma_fundamental_div_mod(d * UNIT, size);
    assert(d * UNIT == size * n + r);
    let q = r / (UNIT as int);
    let rr = r % (UNIT as int);
    lemma_fundamental_div_mod(r, UNIT as int);
    assert(-(n * size) == (UNIT as int) * (q - d) + rr) by (nonlinear_arith)
        requires
            d * UNIT == size * n + r,
            r == (UNIT as int) * q + rr,
    ;
    lemma_fundamental_div_mod_converse(-(n * size), UNIT as int, q - d, rr);
    lemma_div_is_ordered(r, size, UNIT as int);
    lemma_div_is_ordered(0, r, UNIT as int);
}

/// Taking a point from a canvas of any size into the normalized space and back
/// gives the point again, or one at most `width / UNIT` (on x) and
/// `height / UNIT` (on y) below it, for points within reach.
pub proof fn lemma_canvas_round_trip_within(p: Point, r: Rect)
    requires
        r.is_valid(),
        within_reach(p, r),
    ensures
        p.x - (r.width as int) / (UNIT as int) <= point_to_canvas(point_from_canvas(p, r), r).x <= p.x,
        p.y - (r.height as int) / (UNIT as int) <= point_to_canvas(point_from_canvas(p, r), r).y <= p.y,
{
    lemma_axis_in_range(p.x - r.min.x, r.width as int);
    lemma_axis_in_range(p.y - r.min.y, r.height as int);
    lemma_axis_round_trip_within(p.x - r.min.x, r.width as int);
    lemma_axis_round_trip_within(p.y - r.min.y, r.height as int);
}

/// Taking a point from a canvas into the normalized space and back gives the
/// same point, for canvases up to `UNIT` wide and high and points within reach.
pub proof fn lemma_canvas_round_trip(p: Point, r: Rect)
    requires
        r.is_valid(),
        r.width <= UNIT,
        r.height <= UNIT,
        within_reach(p, r),
    ensures
        point_to_canvas(point_from_canvas(p, r), r) == p,
{
    lemma_axis_in_range(p.x - r.min.x, r.width as int);
    lemma_axis_in_range(p.y - r.min.y, r.height as int);
    lemma_axis_round_trip(p.x - r.min.x, r.width as int);
    lemma_axis_round_trip(p.y - r.min.y, r.height as int);
}

} // verus!
