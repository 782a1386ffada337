//! The parsed document tree and the depth-first collection of its paths.
use vstd::prelude::*;
use crate::geometry::{Point, Rect, Transform};

verus! {

/// One drawing instruction of a path's outline.
#[derive(Clone, Copy, Debug, PartialEq, Eq, Structural)]
pub enum PathSegment {
    MoveTo(Point),
    LineTo(Point),
    /// Control point, then end point.
    QuadTo(Point, Point),
    /// First and second control points, then end point.
    CubicTo(Point, Point, Point),
    Close,
}

/// A drawable outline with its absolute transform and bounding box.
#[derive(Debug)]
pub struct Path {
    pub segments: Vec<PathSegment>,
    pub abs_transform: Transform,
    pub abs_bounding_box: Rect,
}

/// What a `Path` stands for.
pub struct PathModel {
    pub segments: Seq<PathSegment>,
    pub transform: Transform,
    pub bbox: Rect,
}

impl View for Path {
    type V = PathModel;

    open spec fn view(&self) -> PathModel {
        PathModel {
            segments: self.segments@,
            transform: self.abs_transform,
            bbox: self.abs_bounding_box,
        }
    }
}

impl Path {
    /// A copy of this path, segment by segment.
    pub fn copy(&self) -> (r: Path)
        ensures
            r@ == self@,
    {
        let mut segments: Vec<PathSegment> = Vec::new();
        let mut i: usize = 0;
        while i < self.segments.len()
            invariant
                i <= self.segments@.len(),
                segments@ == self.segments@.subrange(0, i as int),
            decreases self.segments@.len() - i,
        {
            segments.push(self.segments[i]);
            i += 1;
            assert(segments@ =~= self.segments@.subrange(0, i as int));
        }
        assert(segments@ =~= self.segments@);
        Path {
            segments,
            abs_transform: self.abs_transform,
            abs_bounding_box: self.abs_bounding_box,
        }
    }
}

/// A node of the document tree. Images and text draw no outline of their own.
#[derive(Debug)]
pub enum Node {
    Group(Group),
    Path(Path),
    Image,
    Text,
}

/// An ordered list of child nodes.
#[derive(Debug)]
pub struct Group {
    pub children: Vec<Node>,
}

/// The document's reported size, in fixed-point document units.
#[derive(Clone, Copy, Debug, PartialEq, Eq, Structural)]
pub struct Size {
    pub width: i32,
    pub height: i32,
}

/// A parsed document: its root group and its size.
#[derive(Debug)]
pub struct Tree {
    pub root: Group,
    pub size: Size,
}

/// The models of a list of paths.
pub open spec fn models(paths: Seq<Path>) -> Seq<PathModel> {
    paths.map_values(|p: Path| p@)
}

/// The paths under a node, depth first, in document order.
pub open spec fn node_paths(n: Node) -> Seq<PathModel>
    decreases n,
{
    match n {
        Node::Group(g) => nodes_paths(g.children@),
        Node::Path(p) => seq![p@],
        Node::Image => Seq::empty(),
        Node::Text => Seq::empty(),
    }
}

/// The paths under a list of sibling nodes, depth first, in document order.
pub open spec fn nodes_paths(s: Seq<Node>) -> Seq<PathModel>
    decreases s,
{
    if s.len() == 0 {
        Seq::empty()
    } else {
        nodes_paths(s.subrange(0, s.len() - 1)) + node_paths(s[s.len() - 1])
    }
}

/// How many `Path` nodes lie under a node, at any depth.
pub open spec fn node_path_count(n: Node) -> nat
    decreases n,
{
    match n {
        Node::Group(g) => nodes_path_count(g.children@),
        Node::Path(_) => 1,
        Node::Image => 0,
        Node::Text => 0,
    }
}

/// How many `Path` nodes lie under a list of sibling nodes, at any depth.
pub open spec fn nodes_path_count(s: Seq<Node>) -> nat
    decreases s,
{
    if s.len() == 0 {
        0
    } else {
        nodes_path_count(s.subrange(0, s.len() - 1)) + node_path_count(s[s.len() - 1])
    }
}

/// Collects every path under `parent`, depth first and in document order,
/// skipping images and text.
pub fn collect_paths_in_nodes(parent: &Group) -> (r: Vec<Path>)
    ensures
        models(r@) == nodes_paths(parent.children@),
    decreases parent,
{
    let mut paths: Vec<Path> = Vec::new();
    let mut i: usize = 0;
    while i < parent.children.len()
        invariant
            i <= parent.children@.len(),
            models(paths@) == nodes_paths(parent.children@.subrange(0, i as int)),
        decreases parent.children@.len() - i,
    {
        let ghost before = paths@;
        let ghost prefix = parent.children@.subrange(0, i + 1);
        assert(prefix.subrange(0, i as int) =~= parent.children@.subrange(0, i as int));
        assert(prefix[i as int] == parent.children@[i as int]);
        assert(nodes_paths(prefix) == nodes_paths(parent.children@.subrange(0, i as int))
            + node_paths(parent.children@[i as int]));
        match &parent.children[i] {
            Node::Group(g) => {
                assert(decreases_to!(parent => parent.children@[i as int]));
                let mut p = collect_paths_in_nodes(g);
                let ghost added = p@;
                paths.append(&mut p);
                assert(models(paths@) =~= models(before) + models(added));
            },
            Node::Path(p) => {
                paths.push(p.copy());
                assert(models(paths@) =~= models(before).push(p@));
            },
            Node::Image => {
                assert(models(paths@) =~= models(before) + Seq::<PathModel>::empty());
            },
            Node::Text => {
                assert(models(paths@) =~= models(before) + Seq::<PathModel>::empty());
            },
        }
        i += 1;
    }
    assert(parent.children@.subrange(0, i as int) =~= parent.children@);
    paths
}

/// The number of paths collected under a list of nodes is the number of
/// `Path` nodes among them, however deeply they are nested in groups and
/// however they are interleaved with images and text.
pub proof fn lemma_collected_count(s: Seq<Node>)
    ensures
        nodes_paths(s).len() == nodes_path_count(s),
    decreases s,
{
    if s.len() > 0 {
        lemma_collected_count(s.subrange(0, s.len() - 1));
        lemma_node_collected_count(s[s.len() - 1]);
    }
}

/// The number of paths collected under a node is the number of `Path` nodes
/// under it.
pub proof fn lemma_node_collected_count(n: Node)
    ensures
        node_paths(n).len() == node_path_count(n),
    decreases n,
{
    match n {
        Node::Group(g) => {
            lemma_collected_count(g.children@);
        },
        _ => {},
    }
}

/// A tree without `Path` nodes collects to nothing.
pub proof fn lemma_no_paths_collects_nothing(s: Seq<Node>)
    requires
        nodes_path_count(s) == 0,
    ensures
        nodes_paths(s) == Seq::<PathModel>::empty(),
{
    lemma_collected_count(s);
    assert(nodes_paths(s) =~= Seq::<PathModel>::empty());
}

/// A list of nodes that holds only images and text holds no `Path` node,
/// and so collects to nothing.
pub proof fn lemma_images_and_text_only(s: Seq<Node>)
    requires
        forall|i: int| 0 <= i < s.len() ==> (#[trigger] s[i] is Image || s[i] is Text),
    ensures
        nodes_path_count(s) == 0,
        nodes_paths(s) == Seq::<PathModel>::empty(),
    decreases s.len(),
{
    if s.len() > 0 {
        let head = s.subrange(0, s.len() - 1);
        assert forall|i: int| 0 <= i < head.len() implies (#[trigger] head[i] is Image
            || head[i] is Text) by {
            assert(head[i] == s[i]);
        }
        lemma_images_and_text_only(head);
        let last = s[s.len() - 1];
        assert(last is Image || last is Text);
        assert(node_path_count(last) == 0);
        assert(nodes_path_count(s) == nodes_path_count(head) + node_path_count(last));
    }
    lemma_no_paths_collects_nothing(s);
}

} // verus!
