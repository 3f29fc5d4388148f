//! The scene graph the compiler walks: an immutable tree of group,
//! path, image and text nodes, as the parsing layer hands it over. Each
//! node carries its local transform; images embed raster bytes or a
//! nested vector tree; text runs carry the outcome of glyph-outline
//! conversion as data.

use vstd::prelude::*;

use crate::paint::Fill;
use crate::paint::Paint;
use crate::path::Segment;
use crate::path::segs_wf;
use crate::transform::Rect;
use crate::transform::Transform;

verus! {

/// One node of the scene graph.
#[derive(Debug, PartialEq)]
pub struct Node {
    /// The node's local transform, composed onto the parent's
    /// accumulated transform for this node and its children.
    pub transform: Transform,
    pub kind: NodeKind,
    /// The node's children; only group nodes have any.
    pub children: Vec<Node>,
}

#[derive(Debug, PartialEq)]
pub enum NodeKind {
    Group,
    Path(PathNode),
    Image(ImageNode),
    Text(TextNode),
}

/// A filled path.
#[derive(Debug, PartialEq)]
pub struct PathNode {
    pub visible: bool,
    pub data: Vec<Segment>,
    pub fill: Option<Fill>,
    /// Recognized but never rendered.
    pub stroke: Option<Paint>,
    /// The path's bounding box, when the parsing layer could compute
    /// one.
    pub bbox: Option<Rect>,
}

/// An embedded image.
#[derive(Debug, PartialEq)]
pub struct ImageNode {
    pub visible: bool,
    /// Where and how large the image is placed.
    pub view_box: Rect,
    pub kind: ImageKind,
}

/// The embedded image's payload.
#[derive(Debug, PartialEq)]
pub enum ImageKind {
    /// A nested vector tree, rendered into the transient buffer.
    Svg(Box<Node>),
    /// Raw JPEG bytes.
    Jpeg(Vec<u8>),
    /// Raw PNG bytes.
    Png(Vec<u8>),
    /// Raw GIF bytes (recognized, unsupported).
    Gif(Vec<u8>),
}

/// A text run, as the outcome of glyph-outline conversion.
#[derive(Debug, PartialEq)]
pub struct TextNode {
    pub resolved: TextResolved,
}

#[derive(Debug, PartialEq)]
pub enum TextResolved {
    /// No font database was available; the run is skipped with a
    /// warning.
    NoFont,
    /// A database was available but the run could not be converted.
    Unconvertible,
    /// The converted outlines, walked as ordinary path geometry.
    Outline(Box<Node>),
}

/// The whole scene: its logical coordinate window and the root node.
#[derive(Debug, PartialEq)]
pub struct Tree {
    pub view_box: Rect,
    pub root: Node,
}

/// Well-formedness of a node: every transform, scalar and rectangle in
/// it and under it is well-formed.
pub open spec fn node_wf(n: Node) -> bool
    decreases n,
{
    &&& n.transform.wf()
    &&& kind_wf(n.kind)
    &&& forall|i: int| 0 <= i < n.children@.len() ==> node_wf(#[trigger] n.children@[i])
}

pub open spec fn kind_wf(k: NodeKind) -> bool
    decreases k,
{
    match k {
        NodeKind::Group => true,
        NodeKind::Path(p) => path_node_wf(p),
        NodeKind::Image(img) => {
            &&& img.view_box.wf()
            &&& match img.kind {
                ImageKind::Svg(sub) => node_wf(*sub),
                _ => true,
            }
        },
        NodeKind::Text(t) => match t.resolved {
            TextResolved::Outline(sub) => node_wf(*sub),
            _ => true,
        },
    }
}

pub open spec fn path_node_wf(p: PathNode) -> bool {
    &&& segs_wf(p.data@)
    &&& match p.bbox {
        Some(b) => b.wf(),
        None => true,
    }
    &&& match p.fill {
        Some(f) => fill_wf(f),
        None => true,
    }
}

pub open spec fn fill_wf(f: Fill) -> bool {
    match f.paint {
        Paint::LinearGradient(g) => {
            &&& g.x1.wf()
            &&& g.y1.wf()
            &&& g.x2.wf()
            &&& g.y2.wf()
            &&& g.transform.wf()
        },
        _ => true,
    }
}

/// Well-formedness of a whole scene.
pub open spec fn tree_wf(t: Tree) -> bool {
    &&& t.view_box.wf()
    &&& node_wf(t.root)
}

} // verus!
