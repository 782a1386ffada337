//! Fixed-point coordinates and the scale / translate / flip mapping that
//! takes a document point into a path's own output space.
use vstd::prelude::*;

verus! {

/// Fixed-point steps per document unit: every coordinate of this crate is a
/// 16.16 fixed-point number.
pub const FIXED_ONE: i64 = 65536;

/// A point in document space (Y pointing down).
#[derive(Clone, Copy, Debug, PartialEq, Eq, Structural)]
pub struct Point {
    pub x: i32,
    pub y: i32,
}

/// A point in output space: relative to a path's bounding-box origin, Y
/// pointing up. The wider type holds every image of a `Point`.
#[derive(Clone, Copy, Debug, PartialEq, Eq, Structural)]
pub struct Vec2 {
    pub x: i64,
    pub y: i64,
}

/// An absolute transform without rotation or skew: a scale on each axis
/// (fixed point, so `FIXED_ONE` is the identity) and a translation.
#[derive(Clone, Copy, Debug, PartialEq, Eq, Structural)]
pub struct Transform {
    pub sx: i32,
    pub sy: i32,
    pub tx: i32,
    pub ty: i32,
}

/// An axis-aligned rectangle in document space.
#[derive(Clone, Copy, Debug, PartialEq, Eq, Structural)]
pub struct Rect {
    pub left: i32,
    pub top: i32,
    pub right: i32,
    pub bottom: i32,
}

/// A fixed-point value times a fixed-point scale, rounded down.
pub open spec fn scaled(v: int, s: int) -> int {
    (v * s) / (FIXED_ONE as int)
}

/// `x * sx + (tx - left)`.
pub open spec fn map_x(p: Point, t: Transform, b: Rect) -> int {
    scaled(p.x as int, t.sx as int) + (t.tx - b.left)
}

/// `-(y * sy + (ty - top))`: the minus flips the vertical axis.
pub open spec fn map_y(p: Point, t: Transform, b: Rect) -> int {
    -(scaled(p.y as int, t.sy as int) + (t.ty - b.top))
}

/// The output point of a document point under a transform, relative to a
/// bounding box's top-left corner.
pub open spec fn map_point(p: Point, t: Transform, b: Rect) -> Vec2 {
    Vec2 { x: map_x(p, t, b) as i64, y: map_y(p, t, b) as i64 }
}

proof fn lemma_scaled_bounds(v: int, s: int)
    requires
        i32::MIN <= v <= i32::MAX,
        i32::MIN <= s <= i32::MAX,
    ensures
        -0x4000_0000_0000 <= scaled(v, s) <= 0x4000_0000_0000,
{
    assert(-0x4000_0000_0000_0000 <= v * s <= 0x4000_0000_0000_0000) by (nonlinear_arith)
        requires
            i32::MIN <= v <= i32::MAX,
            i32::MIN <= s <= i32::MAX,
    ;
    let p = v * s;
    assert(-0x4000_0000_0000 <= p / 65536 <= 0x4000_0000_0000) by (nonlinear_arith)
        requires
            -0x4000_0000_0000_0000 <= p <= 0x4000_0000_0000_0000,
    ;
}

/// `v * s`, rounded down to a fixed-point value.
fn scale_fixed(v: i32, s: i32) -> (r: i64)
    ensures
        r == scaled(v as int, s as int),
        -0x4000_0000_0000 <= r <= 0x4000_0000_0000,
{
    proof {
        lemma_scaled_bounds(v as int, s as int);
    }
    let p: i64 = (v as i64) * (s as i64);
    let q = p.checked_div_euclid(FIXED_ONE);
    q.unwrap()
}

/// Maps one document point into output space.
pub fn transform_point(p: Point, t: Transform, b: Rect) -> (r: Vec2)
    ensures
        r.x == map_x(p, t, b),
        r.y == map_y(p, t, b),
        r == map_point(p, t, b),
{
    let x = scale_fixed(p.x, t.sx) + ((t.tx as i64) - (b.left as i64));
    let y = -(scale_fixed(p.y, t.sy) + ((t.ty as i64) - (b.top as i64)));
    Vec2 { x, y }
}

} // verus!
