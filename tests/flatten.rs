use bevy_svg_paths::flatten::{curve_segments, write_points, Curve};
use bevy_svg_paths::geometry::{transform_point, Point, Rect, Transform, Vec2, FIXED_ONE};
use bevy_svg_paths::tree::PathSegment;

const ONE: i32 = FIXED_ONE as i32;

fn pt(x: i32, y: i32) -> Point {
    Point { x: x * ONE, y: y * ONE }
}

fn out(x: i64, y: i64) -> Vec2 {
    Vec2 { x: x * FIXED_ONE, y: y * FIXED_ONE }
}

fn identity() -> Transform {
    Transform { sx: ONE, sy: ONE, tx: 0, ty: 0 }
}

fn origin_box() -> Rect {
    Rect { left: 0, top: 0, right: 10 * ONE, bottom: 10 * ONE }
}

fn flatten(segments: &Vec<PathSegment>, curves: &Vec<Vec<Point>>, t: Transform, b: Rect) -> Vec<Vec2> {
    let mut buf = Vec::new();
    write_points(segments, curves, &mut buf, t, b);
    buf
}

#[test]
fn horizontal_line_at_zero() {
    let segs = vec![PathSegment::MoveTo(pt(0, 0)), PathSegment::LineTo(pt(10, 0))];
    let r = flatten(&segs, &vec![], identity(), origin_box());
    assert_eq!(r, vec![out(0, 0), out(10, 0)]);
}

#[test]
fn horizontal_line_is_flipped() {
    let segs = vec![PathSegment::MoveTo(pt(0, 5)), PathSegment::LineTo(pt(10, 5))];
    let r = flatten(&segs, &vec![], identity(), origin_box());
    assert_eq!(r, vec![out(0, -5), out(10, -5)]);
}

#[test]
fn scale_and_translate_relative_to_box() {
    let t = Transform { sx: 2 * ONE, sy: 3 * ONE, tx: 7 * ONE, ty: 4 * ONE };
    let b = Rect { left: ONE, top: 2 * ONE, right: 20 * ONE, bottom: 20 * ONE };
    // x: 5 * 2 + (7 - 1) = 16; y: -(1 * 3 + (4 - 2)) = -5
    assert_eq!(transform_point(pt(5, 1), t, b), out(16, -5));
}

#[test]
fn fractional_scale_rounds_down() {
    let t = Transform { sx: ONE / 2, sy: ONE / 2, tx: 0, ty: 0 };
    let b = Rect { left: 0, top: 0, right: 0, bottom: 0 };
    assert_eq!(transform_point(Point { x: 3, y: -3 }, t, b), Vec2 { x: 1, y: 2 });
}

#[test]
fn close_keeps_cursor_and_adds_nothing() {
    let segs = vec![
        PathSegment::MoveTo(pt(0, 0)),
        PathSegment::LineTo(pt(1, 0)),
        PathSegment::Close,
        PathSegment::LineTo(pt(2, 0)),
        PathSegment::QuadTo(pt(3, 1), pt(4, 0)),
    ];
    let curves = curve_segments(&segs);
    assert_eq!(curves, vec![Curve::Quadratic { from: pt(2, 0), ctrl: pt(3, 1), to: pt(4, 0) }]);
    let without_close = vec![
        PathSegment::MoveTo(pt(0, 0)),
        PathSegment::LineTo(pt(1, 0)),
        PathSegment::Close,
        PathSegment::QuadTo(pt(1, 1), pt(2, 0)),
    ];
    assert_eq!(
        curve_segments(&without_close),
        vec![Curve::Quadratic { from: pt(1, 0), ctrl: pt(1, 1), to: pt(2, 0) }]
    );
    let poly = vec![vec![pt(3, 0), pt(4, 0)]];
    let r = flatten(&segs, &poly, identity(), origin_box());
    assert_eq!(r, vec![out(0, 0), out(1, 0), out(2, 0), out(3, 0), out(4, 0)]);
}

#[test]
fn curve_before_any_move_starts_at_origin() {
    let segs = vec![PathSegment::CubicTo(pt(1, 1), pt(2, 1), pt(3, 0))];
    assert_eq!(
        curve_segments(&segs),
        vec![Curve::Cubic { from: pt(0, 0), ctrl1: pt(1, 1), ctrl2: pt(2, 1), to: pt(3, 0) }]
    );
}

#[test]
fn curve_polylines_are_transformed_in_order() {
    let segs = vec![
        PathSegment::MoveTo(pt(1, 1)),
        PathSegment::CubicTo(pt(2, 2), pt(3, 2), pt(4, 1)),
        PathSegment::QuadTo(pt(5, 0), pt(6, 1)),
    ];
    let curves = curve_segments(&segs);
    assert_eq!(curves.len(), 2);
    assert_eq!(curves[1], Curve::Quadratic { from: pt(4, 1), ctrl: pt(5, 0), to: pt(6, 1) });
    let poly = vec![vec![pt(2, 2), pt(4, 1)], vec![pt(5, 1), pt(6, 1)]];
    let b = Rect { left: ONE, top: ONE, right: 6 * ONE, bottom: 2 * ONE };
    let r = flatten(&segs, &poly, identity(), b);
    assert_eq!(r, vec![out(0, 0), out(1, -1), out(3, 0), out(4, 0), out(5, 0)]);
}

#[test]
fn flattening_twice_gives_the_same_points() {
    let segs = vec![
        PathSegment::MoveTo(pt(0, 3)),
        PathSegment::QuadTo(pt(1, 5), pt(2, 3)),
        PathSegment::LineTo(pt(4, 4)),
        PathSegment::Close,
    ];
    let poly = vec![vec![pt(1, 4), pt(2, 3)]];
    let t = Transform { sx: ONE, sy: 2 * ONE, tx: ONE, ty: 0 };
    let a = flatten(&segs, &poly, t, origin_box());
    let b = flatten(&segs, &poly, t, origin_box());
    assert_eq!(a, b);
    assert_eq!(a.len(), 4);
}

#[test]
fn write_points_appends_to_buffer() {
    let segs = vec![PathSegment::LineTo(pt(1, 1))];
    let mut buf = vec![out(9, 9)];
    write_points(&segs, &vec![], &mut buf, identity(), origin_box());
    assert_eq!(buf, vec![out(9, 9), out(1, -1)]);
}
