//! Assembly of a document's flattened paths into one asset.
use vstd::prelude::*;
use crate::flatten::{
    curve_count, curve_segments, curves_of, points_of, polylines, write_points, Curve,
};
use crate::geometry::{Point, Vec2};
use crate::tree::{
    collect_paths_in_nodes, lemma_collected_count, models, nodes_path_count, nodes_paths, PathModel,
    Tree,
};

verus! {

/// One flattened path: its polyline, relative to its bounding box's
/// top-left corner, and that corner's position in the document.
#[derive(Debug)]
pub struct SvgPath {
    pub points: Vec<Vec2>,
    pub translation: Vec2,
}

/// Every flattened path of a document, in document order, with the
/// document's size.
#[derive(Debug)]
pub struct SvgAsset {
    pub paths: Vec<SvgPath>,
    pub dimensions: Vec2,
}

/// Why an asset could not be built.
#[derive(Debug, PartialEq, Eq)]
pub enum SvgAssetLoaderError {
    /// The input could not be read.
    Io(String),
    /// The input was read but is not a valid document.
    Parse(String),
}

/// Where a path stands in the document: its bounding box's top-left corner.
pub open spec fn translation_of(m: PathModel) -> Vec2 {
    Vec2 { x: m.bbox.left as i64, y: m.bbox.top as i64 }
}

/// The points of a path, given the polylines of its curves.
pub open spec fn path_points(m: PathModel, flat: Seq<Seq<Point>>) -> Seq<Vec2> {
    points_of(m.segments, m.transform, m.bbox, flat)
}

/// Whether `p` is the flattened path of `m`, given the polylines of its
/// curves: its points are those `write_points` emits, its translation the
/// bounding box's top-left corner.
pub open spec fn built_from(p: SvgPath, m: PathModel, flat: Seq<Seq<Point>>) -> bool {
    &&& p.points@ == path_points(m, flat)
    &&& p.translation == translation_of(m)
}

/// The paths' points one after the other.
pub open spec fn concat_points(paths: Seq<SvgPath>) -> Seq<Vec2>
    decreases paths.len(),
{
    if paths.len() == 0 {
        Seq::empty()
    } else {
        concat_points(paths.subrange(0, paths.len() - 1)) + paths[paths.len() - 1].points@
    }
}

/// Whether `flattened` holds, for each path of the tree, one polyline per
/// curve of that path.
pub open spec fn fits(tree: &Tree, flattened: Seq<Vec<Vec<Point>>>) -> bool {
    let paths = nodes_paths(tree.root.children@);
    &&& flattened.len() == paths.len()
    &&& forall|i: int|
        0 <= i < paths.len() ==> #[trigger] flattened[i]@.len() == curve_count(paths[i].segments)
}

/// Whether `flattened` holds, for each path of the tree, one polyline per
/// curve of that path: what `SvgAsset::new` asks of its argument.
pub fn polylines_fit(tree: &Tree, flattened: &Vec<Vec<Vec<Point>>>) -> (r: bool)
    ensures
        r == fits(tree, flattened@),
{
    let paths = collect_paths_in_nodes(&tree.root);
    let ghost m = nodes_paths(tree.root.children@);
    if paths.len() != flattened.len() {
        return false;
    }
    let mut i: usize = 0;
    while i < paths.len()
        invariant
            i <= paths@.len(),
            models(paths@) == m,
            m == nodes_paths(tree.root.children@),
            flattened@.len() == m.len(),
            forall|j: int| 0 <= j < i ==> #[trigger] flattened@[j]@.len() == curve_count(m[j].segments),
        decreases paths@.len() - i,
    {
        assert(m[i as int] == paths@[i as int]@);
        let n = curve_segments(&paths[i].segments).len();
        if flattened[i].len() != n {
            assert(models(paths@).len() == paths@.len());
            assert(flattened@[i as int]@.len() != curve_count(m[i as int].segments));
            return false;
        }
        i += 1;
    }
    true
}

impl SvgAsset {
    /// The Bézier curves of every path of the tree, path by path in the
    /// order of `collect_paths_in_nodes`.
    pub fn curves(tree: &Tree) -> (r: Vec<Vec<Curve>>)
        ensures
            r@.len() == nodes_paths(tree.root.children@).len(),
            forall|i: int|
                0 <= i < r@.len() ==> #[trigger] r@[i]@ == curves_of(
                    nodes_paths(tree.root.children@)[i].segments,
                ),
    {
        let paths = collect_paths_in_nodes(&tree.root);
        let ghost m = nodes_paths(tree.root.children@);
        let mut out: Vec<Vec<Curve>> = Vec::new();
        let mut i: usize = 0;
        while i < paths.len()
            invariant
                i <= paths@.len(),
                models(paths@) == m,
                out@.len() == i,
                forall|j: int| 0 <= j < i ==> #[trigger] out@[j]@ == curves_of(m[j].segments),
            decreases paths@.len() - i,
        {
            assert(m[i as int] == paths@[i as int]@);
            out.push(curve_segments(&paths[i].segments));
            i += 1;
        }
        out
    }

    /// Builds the asset of a tree: for each path, in the order of
    /// `collect_paths_in_nodes`, the points of `write_points` (with
    /// `flattened[i]` the polylines of the `i`-th path's curves) and the
    /// bounding box's top-left corner as translation; the document's size
    /// as dimensions.
    pub fn new(tree: &Tree, flattened: &Vec<Vec<Vec<Point>>>) -> (r: SvgAsset)
        requires
            fits(tree, flattened@),
        ensures
            r.paths@.len() == nodes_path_count(tree.root.children@),
            r.paths@.len() == nodes_paths(tree.root.children@).len(),
            forall|i: int|
                0 <= i < r.paths@.len() ==> built_from(
                    #[trigger] r.paths@[i],
                    nodes_paths(tree.root.children@)[i],
                    polylines(flattened@[i]@),
                ),
            r.dimensions == (Vec2 { x: tree.size.width as i64, y: tree.size.height as i64 }),
    {
        let source = collect_paths_in_nodes(&tree.root);
        let ghost m = nodes_paths(tree.root.children@);
        proof {
            lemma_collected_count(tree.root.children@);
        }
        let mut paths: Vec<SvgPath> = Vec::new();
        let mut i: usize = 0;
        while i < source.len()
            invariant
                i <= source@.len(),
                models(source@) == m,
                fits(tree, flattened@),
                m == nodes_paths(tree.root.children@),
                paths@.len() == i,
                forall|j: int|
                    0 <= j < i ==> built_from(#[trigger] paths@[j], m[j], polylines(flattened@[j]@)),
            decreases source@.len() - i,
        {
            let path = &source[i];
            assert(m[i as int] == path@);
            let mut buf: Vec<Vec2> = Vec::new();
            write_points(
                &path.segments,
                &flattened[i],
                &mut buf,
                path.abs_transform,
                path.abs_bounding_box,
            );
            assert(buf@ =~= path_points(m[i as int], polylines(flattened@[i as int]@)));
            let bbox = path.abs_bounding_box;
            paths.push(SvgPath {
                points: buf,
                translation: Vec2 { x: bbox.left as i64, y: bbox.top as i64 },
            });
            i += 1;
        }
        assert(models(source@).len() == source@.len());
        assert(paths@.len() == m.len());
        SvgAsset {
            paths,
            dimensions: Vec2 { x: tree.size.width as i64, y: tree.size.height as i64 },
        }
    }

    /// The points of every path, one path after the other.
    pub fn all_points(&self) -> (r: Vec<Vec2>)
        ensures
            r@ == concat_points(self.paths@),
    {
        let mut out: Vec<Vec2> = Vec::new();
        let mut i: usize = 0;
        while i < self.paths.len()
            invariant
                i <= self.paths@.len(),
                out@ == concat_points(self.paths@.subrange(0, i as int)),
            decreases self.paths@.len() - i,
        {
            let ghost before = out@;
            let points = &self.paths[i].points;
            let mut j: usize = 0;
            while j < points.len()
                invariant
                    j <= points@.len(),
                    out@ == before + points@.subrange(0, j as int),
                decreases points@.len() - j,
            {
                out.push(points[j]);
                j += 1;
                assert(out@ =~= before + points@.subrange(0, j as int));
            }
            assert(points@.subrange(0, j as int) =~= points@);
            assert(self.paths@.subrange(0, i + 1).subrange(0, i as int) =~= self.paths@.subrange(0, i as int));
            i += 1;
        }
        assert(self.paths@.subrange(0, i as int) =~= self.paths@);
        out
    }
}

} // verus!
