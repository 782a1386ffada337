//! The segment fold: the current-point cursor, the Bézier curves it yields,
//! and the transformed points emitted for a path.
use vstd::prelude::*;
use crate::geometry::{map_point, transform_point, Point, Rect, Transform, Vec2};
use crate::tree::PathSegment;

verus! {

/// Numerator of the tolerance: the largest distance, in document units,
/// between a curve and the polyline that stands for it.
pub const TOLERANCE_NUM: u32 = 1;

/// Denominator of the tolerance: it is `TOLERANCE_NUM / TOLERANCE_DEN`.
pub const TOLERANCE_DEN: u32 = 4;

/// A curve segment in document space, from the cursor to its end point.
#[derive(Clone, Copy, Debug, PartialEq, Eq, Structural)]
pub enum Curve {
    Quadratic { from: Point, ctrl: Point, to: Point },
    Cubic { from: Point, ctrl1: Point, ctrl2: Point, to: Point },
}

/// The origin, where the cursor starts.
pub open spec fn origin() -> Point {
    Point { x: 0, y: 0 }
}

/// All but the last segment.
pub open spec fn init(s: Seq<PathSegment>) -> Seq<PathSegment> {
    s.subrange(0, s.len() - 1)
}

/// The cursor after a run of segments: the raw end point of the last segment
/// that is not a `Close`, or the origin.
pub open spec fn cursor_after(s: Seq<PathSegment>) -> Point
    decreases s.len(),
{
    if s.len() == 0 {
        origin()
    } else {
        match s[s.len() - 1] {
            PathSegment::MoveTo(p) => p,
            PathSegment::LineTo(p) => p,
            PathSegment::QuadTo(_, p) => p,
            PathSegment::CubicTo(_, _, p) => p,
            PathSegment::Close => cursor_after(init(s)),
        }
    }
}

/// Whether a segment is a curve.
pub open spec fn is_curve(seg: PathSegment) -> bool {
    seg is QuadTo || seg is CubicTo
}

/// How many curve segments a run of segments holds.
pub open spec fn curve_count(s: Seq<PathSegment>) -> nat
    decreases s.len(),
{
    if s.len() == 0 {
        0
    } else {
        curve_count(init(s)) + if is_curve(s[s.len() - 1]) { 1nat } else { 0nat }
    }
}

/// The curves of a run of segments, in order, each starting at the cursor
/// left by the segments before it.
pub open spec fn curves_of(s: Seq<PathSegment>) -> Seq<Curve>
    decreases s.len(),
{
    if s.len() == 0 {
        Seq::empty()
    } else {
        let before = curves_of(init(s));
        let from = cursor_after(init(s));
        match s[s.len() - 1] {
            PathSegment::QuadTo(c, p) => before.push(Curve::Quadratic { from, ctrl: c, to: p }),
            PathSegment::CubicTo(c1, c2, p) => before.push(
                Curve::Cubic { from, ctrl1: c1, ctrl2: c2, to: p },
            ),
            _ => before,
        }
    }
}

/// The output images of a list of document points.
pub open spec fn map_points(pts: Seq<Point>, t: Transform, b: Rect) -> Seq<Vec2> {
    pts.map_values(|p: Point| map_point(p, t, b))
}

/// The points emitted for a run of segments, where `flat[k]` is the
/// polyline, in document space, that stands for the `k`-th curve: one point
/// for each move or line, the points of the curve's polyline for a curve,
/// none for a close; each mapped by the transform and bounding box.
pub open spec fn points_of(
    s: Seq<PathSegment>,
    t: Transform,
    b: Rect,
    flat: Seq<Seq<Point>>,
) -> Seq<Vec2>
    decreases s.len(),
{
    if s.len() == 0 {
        Seq::empty()
    } else {
        let before = points_of(init(s), t, b, flat);
        match s[s.len() - 1] {
            PathSegment::MoveTo(p) => before.push(map_point(p, t, b)),
            PathSegment::LineTo(p) => before.push(map_point(p, t, b)),
            PathSegment::QuadTo(_, _) => before + map_points(flat[curve_count(init(s)) as int], t, b),
            PathSegment::CubicTo(_, _, _) => before + map_points(
                flat[curve_count(init(s)) as int],
                t,
                b,
            ),
            PathSegment::Close => before,
        }
    }
}

/// The views of a list of polylines.
pub open spec fn polylines(v: Seq<Vec<Point>>) -> Seq<Seq<Point>> {
    v.map_values(|p: Vec<Point>| p@)
}

/// The Bézier curves of a path's segments, in order: each starts at the
/// cursor, the raw end point of the last segment before it that is not a
/// `Close` (the origin if there is none).
pub fn curve_segments(segments: &Vec<PathSegment>) -> (r: Vec<Curve>)
    ensures
        r@ == curves_of(segments@),
        r@.len() == curve_count(segments@),
{
    let mut curves: Vec<Curve> = Vec::new();
    let mut last = Point { x: 0, y: 0 };
    let mut i: usize = 0;
    while i < segments.len()
        invariant
            i <= segments@.len(),
            last == cursor_after(segments@.subrange(0, i as int)),
            curves@ == curves_of(segments@.subrange(0, i as int)),
            curves@.len() == curve_count(segments@.subrange(0, i as int)),
        decreases segments@.len() - i,
    {
        let ghost prefix = segments@.subrange(0, i + 1);
        assert(init(prefix) =~= segments@.subrange(0, i as int));
        match segments[i] {
            PathSegment::MoveTo(p) => {
                last = p;
            },
            PathSegment::LineTo(p) => {
                last = p;
            },
            PathSegment::QuadTo(c, p) => {
                curves.push(Curve::Quadratic { from: last, ctrl: c, to: p });
                last = p;
            },
            PathSegment::CubicTo(c1, c2, p) => {
                curves.push(Curve::Cubic { from: last, ctrl1: c1, ctrl2: c2, to: p });
                last = p;
            },
            PathSegment::Close => {},
        }
        i += 1;
    }
    assert(segments@.subrange(0, i as int) =~= segments@);
    curves
}

/// Appends to `buf` the points of a path: for each move or line its end
/// point, for the `k`-th curve the points of `curves[k]` (its polyline in
/// document space, as flattened from `curve_segments(segments)[k]`), nothing
/// for a close; each mapped by `transform_point`.
pub fn write_points(
    segments: &Vec<PathSegment>,
    curves: &Vec<Vec<Point>>,
    buf: &mut Vec<Vec2>,
    abs_transform: Transform,
    abs_bounding_box: Rect,
)
    requires
        curves@.len() == curve_count(segments@),
    ensures
        final(buf)@ == old(buf)@ + points_of(
            segments@,
            abs_transform,
            abs_bounding_box,
            polylines(curves@),
        ),
{
    let ghost flat = polylines(curves@);
    let ghost start = buf@;
    let mut k: usize = 0;
    let mut i: usize = 0;
    while i < segments.len()
        invariant
            i <= segments@.len(),
            flat == polylines(curves@),
            curves@.len() == curve_count(segments@),
            k == curve_count(segments@.subrange(0, i as int)),
            buf@ == start + points_of(
                segments@.subrange(0, i as int),
                abs_transform,
                abs_bounding_box,
                flat,
            ),
        decreases segments@.len() - i,
    {
        let ghost prefix = segments@.subrange(0, i + 1);
        let ghost before = buf@;
        assert(init(prefix) =~= segments@.subrange(0, i as int));
        proof {
            lemma_curve_count_prefix(segments@, i + 1);
        }
        match segments[i] {
            PathSegment::MoveTo(p) => {
                buf.push(transform_point(p, abs_transform, abs_bounding_box));
            },
            PathSegment::LineTo(p) => {
                buf.push(transform_point(p, abs_transform, abs_bounding_box));
            },
            PathSegment::Close => {},
            _ => {
                let line = &curves[k];
                let mut j: usize = 0;
                while j < line.len()
                    invariant
                        j <= line@.len(),
                        k < curves@.len(),
                        *line == curves@[k as int],
                        flat == polylines(curves@),
                        buf@ == before + map_points(line@.subrange(0, j as int), abs_transform, abs_bounding_box),
                    decreases line@.len() - j,
                {
                    buf.push(transform_point(line[j], abs_transform, abs_bounding_box));
                    j += 1;
                    assert(map_points(line@.subrange(0, j as int), abs_transform, abs_bounding_box)
                        =~= map_points(line@.subrange(0, j - 1), abs_transform, abs_bounding_box)
                        .push(map_point(line@[j - 1], abs_transform, abs_bounding_box)));
                }
                assert(line@.subrange(0, j as int) =~= line@);
                assert(flat[k as int] == line@);
                assert(k < curves.len());
                k += 1;
            },
        }
        i += 1;
        assert(buf@ =~= start + points_of(
            segments@.subrange(0, i as int),
            abs_transform,
            abs_bounding_box,
            flat,
        ));
    }
    assert(segments@.subrange(0, i as int) =~= segments@);
}

/// A `Close` adds no point and leaves the cursor where it was: whatever
/// run of segments follows it starts from the end of the segment before
/// the close, and emits what it would have emitted without the close.
pub proof fn lemma_close_is_inert(
    before: Seq<PathSegment>,
    after: Seq<PathSegment>,
    t: Transform,
    b: Rect,
    flat: Seq<Seq<Point>>,
)
    ensures
        points_of(before.push(PathSegment::Close) + after, t, b, flat) == points_of(
            before + after,
            t,
            b,
            flat,
        ),
        cursor_after(before.push(PathSegment::Close) + after) == cursor_after(before + after),
        curves_of(before.push(PathSegment::Close) + after) == curves_of(before + after),
        curve_count(before.push(PathSegment::Close) + after) == curve_count(before + after),
    decreases after.len(),
{
    let with = before.push(PathSegment::Close) + after;
    let without = before + after;
    if after.len() == 0 {
        assert(with =~= before.push(PathSegment::Close));
        assert(without =~= before);
        assert(init(with) =~= before);
    } else {
        let rest = init(after);
        lemma_close_is_inert(before, rest, t, b, flat);
        assert(init(with) =~= before.push(PathSegment::Close) + rest);
        assert(init(without) =~= before + rest);
        assert(with[with.len() - 1] == without[without.len() - 1]);
    }
}

/// Flattening is a function of its inputs: the same segments, transform,
/// bounding box and curve polylines give the same points, call after call.
pub proof fn lemma_flatten_deterministic(
    s1: Seq<PathSegment>,
    s2: Seq<PathSegment>,
    t: Transform,
    b: Rect,
    flat1: Seq<Seq<Point>>,
    flat2: Seq<Seq<Point>>,
)
    requires
        s1 == s2,
        flat1 == flat2,
    ensures
        points_of(s1, t, b, flat1) == points_of(s2, t, b, flat2),
        curves_of(s1) == curves_of(s2),
{
}

/// A prefix holds no more curves than the whole run.
proof fn lemma_curve_count_prefix(s: Seq<PathSegment>, n: int)
    requires
        0 <= n <= s.len(),
    ensures
        curve_count(s.subrange(0, n)) <= curve_count(s),
        n < s.len() ==> curve_count(s.subrange(0, n)) + (if is_curve(s[n]) { 1int } else { 0int })
            <= curve_count(s),
    decreases s.len() - n,
{
    if n < s.len() {
        lemma_curve_count_prefix(s, n + 1);
        assert(init(s.subrange(0, n + 1)) =~= s.subrange(0, n));
    } else {
        assert(s.subrange(0, n) =~= s);
    }
}

} // verus!
