//! The node snapshot that a layout pass reads.
use vstd::prelude::*;

verus! {

/// How a node's size on one axis is determined.
#[derive(Clone, Copy, Debug, PartialEq, Eq, Structural)]
pub enum SizeMode {
    /// The size derives from the content.
    Auto,
    /// A whole-number percentage of the parent's size on the same axis.
    Percentage(i64),
    /// An absolute size in layout units.
    Manual(i64),
}

/// Which axes accumulate child extents sequentially inside a parent.
#[derive(Clone, Copy, Debug, PartialEq, Eq, Structural)]
pub enum DirectionMode {
    Vertical,
    Horizontal,
    Both,
}

/// Space kept free inside a node's edges, per side.
#[derive(Clone, Copy, Debug, PartialEq, Eq, Structural)]
pub struct Padding {
    pub top: i64,
    pub right: i64,
    pub bottom: i64,
    pub left: i64,
}

/// Size, spacing, scroll and stacking attributes of one node.
#[derive(Clone, Copy, Debug, PartialEq, Eq, Structural)]
pub struct Size {
    pub width: SizeMode,
    pub height: SizeMode,
    pub min_height: SizeMode,
    pub min_width: SizeMode,
    pub padding: Padding,
    pub scroll_y: i64,
    pub scroll_x: i64,
    pub direction: DirectionMode,
}

/// An absolute-coordinate box.
#[derive(Clone, Copy, Debug, PartialEq, Eq, Structural)]
pub struct NodeArea {
    pub x: i64,
    pub y: i64,
    pub width: i64,
    pub height: i64,
}

/// What kind of node a snapshot entry is.
#[derive(Debug)]
pub enum NodeKind {
    /// An element with its tag name and the identities of its children, in
    /// document order.
    Element { tag: String, children: Vec<u64> },
    /// A run of text; it is not measured by the layout engine.
    Text { text: String },
    /// A node that takes part in layout with no content of its own.
    Placeholder,
}

/// One node of a tree snapshot.
#[derive(Debug)]
pub struct NodeData {
    pub id: u64,
    pub kind: NodeKind,
    pub size: Size,
    /// Signed offset from the inherited layer; 0 keeps the inherited layer.
    pub relative_layer: i16,
}

/// The tag of single-line text labels, whose automatic height is fixed.
pub open spec fn label_tag() -> Seq<char> {
    seq!['l', 'a', 'b', 'e', 'l']
}

/// Whether a node is an element with the label tag.
pub open spec fn is_label(kind: &NodeKind) -> bool {
    match kind {
        NodeKind::Element { tag, .. } => tag@ == label_tag(),
        _ => false,
    }
}

/// Tells whether a tag names a text label.
pub fn is_label_tag(tag: &String) -> (r: bool)
    ensures
        r == (tag@ == label_tag()),
{
    let s = tag.as_str();
    let n = s.unicode_len();
    if n != 5 {
        return false;
    }
    let r = s.get_char(0) == 'l' && s.get_char(1) == 'a' && s.get_char(2) == 'b'
        && s.get_char(3) == 'e' && s.get_char(4) == 'l';
    assert(r ==> s@ =~= label_tag());
    r
}

impl NodeData {
    /// Tells whether this node is a text label.
    pub fn is_label(&self) -> (r: bool)
        ensures
            r == is_label(&self.kind),
    {
        match &self.kind {
            NodeKind::Element { tag, .. } => is_label_tag(tag),
            _ => false,
        }
    }
}

impl Size {
    /// Attributes that fill the parent on both axes and stack children on
    /// both axes.
    pub fn expanded() -> (r: Self)
        ensures
            r.width == SizeMode::Percentage(100),
            r.height == SizeMode::Percentage(100),
            r.min_height == SizeMode::Manual(0),
            r.min_width == SizeMode::Manual(0),
            r.padding == (Padding { top: 0, right: 0, bottom: 0, left: 0 }),
            r.scroll_y == 0,
            r.scroll_x == 0,
            r.direction == DirectionMode::Both,
    {
        Size {
            width: SizeMode::Percentage(100),
            height: SizeMode::Percentage(100),
            min_height: SizeMode::Manual(0),
            min_width: SizeMode::Manual(0),
            padding: Padding { top: 0, right: 0, bottom: 0, left: 0 },
            scroll_y: 0,
            scroll_x: 0,
            direction: DirectionMode::Both,
        }
    }
}

} // verus!
