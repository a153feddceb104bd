//! The tree layout walker.
use vstd::prelude::*;
use crate::area::{add_saturating, area_of, calculate_area, sat_add, sat_sub, sub_saturating};
use crate::layers::{bucket, own_layer, Layers, RenderEntry};
use crate::node::{DirectionMode, NodeArea, NodeData, NodeKind, Padding, SizeMode};

verus! {

/// A snapshot of the node tree for one pass: the node with identity `i`
/// sits in slot `i`; an empty slot or an identity past the end does not
/// resolve.
pub struct TreeSnapshot {
    pub nodes: Vec<Option<NodeData>>,
}

/// The node that an identity resolves to, if any.
pub open spec fn lookup(nodes: Seq<Option<NodeData>>, id: u64) -> Option<NodeData> {
    if (id as int) < nodes.len() {
        nodes[id as int]
    } else {
        None
    }
}

/// The identities of a node's children, in document order.
pub open spec fn child_ids(kind: NodeKind) -> Seq<u64> {
    match kind {
        NodeKind::Element { children, .. } => children@,
        _ => Seq::empty(),
    }
}

/// The region inside a box's padding.
pub open spec fn inner_of(area: NodeArea, padding: Padding) -> NodeArea {
    NodeArea {
        x: sat_add(area.x as int, padding.left as int) as i64,
        y: sat_add(area.y as int, padding.top as int) as i64,
        width: sat_sub(
            area.width as int,
            sat_add(padding.left as int, padding.right as int),
        ) as i64,
        height: sat_sub(
            area.height as int,
            sat_add(padding.top as int, padding.bottom as int),
        ) as i64,
    }
}

/// Running state of the placement of a node's children. Advances and
/// reaches are measured from the scrolled origin of the inner region.
#[derive(Clone, Copy, Debug, PartialEq, Eq, Structural)]
pub struct Flow {
    /// How far the cursor has advanced on each axis.
    pub adv_x: i64,
    pub adv_y: i64,
    /// The farthest child edge seen on each axis.
    pub reach_x: i64,
    pub reach_y: i64,
    /// The extent still offered to the next child.
    pub rem_w: i64,
    pub rem_h: i64,
}

/// Whether children follow each other along the horizontal axis.
pub open spec fn advances_x(dir: DirectionMode) -> bool {
    dir == DirectionMode::Horizontal || dir == DirectionMode::Both
}

/// Whether children follow each other along the vertical axis.
pub open spec fn advances_y(dir: DirectionMode) -> bool {
    dir == DirectionMode::Vertical || dir == DirectionMode::Both
}

/// The state before the first child: nothing advanced, the whole inner
/// region offered.
pub open spec fn start_flow(inner: NodeArea) -> Flow {
    Flow { adv_x: 0, adv_y: 0, reach_x: 0, reach_y: 0, rem_w: inner.width, rem_h: inner.height }
}

/// The remaining extent after a child took `extent` of it; reset to the
/// child's extent when the child did not fit or nothing is left.
pub open spec fn shrink(remaining: int, extent: int) -> int {
    let r = sat_sub(remaining, extent);
    if extent > r || r == 0 {
        extent
    } else {
        r
    }
}

/// The state after a child resolved to `child`.
pub open spec fn advance_flow(f: Flow, dir: DirectionMode, child: NodeArea) -> Flow {
    let far_x = sat_add(f.adv_x as int, child.width as int);
    let far_y = sat_add(f.adv_y as int, child.height as int);
    Flow {
        adv_x: if advances_x(dir) { far_x as i64 } else { f.adv_x },
        adv_y: if advances_y(dir) { far_y as i64 } else { f.adv_y },
        reach_x: if far_x > f.reach_x { far_x as i64 } else { f.reach_x },
        reach_y: if far_y > f.reach_y { far_y as i64 } else { f.reach_y },
        rem_w: shrink(f.rem_w as int, child.width as int) as i64,
        rem_h: shrink(f.rem_h as int, child.height as int) as i64,
    }
}

/// The space offered to the next child: at the cursor, with the
/// remaining extent.
pub open spec fn child_candidate(origin_x: i64, origin_y: i64, f: Flow) -> NodeArea {
    NodeArea {
        x: sat_add(origin_x as int, f.adv_x as int) as i64,
        y: sat_add(origin_y as int, f.adv_y as int) as i64,
        width: f.rem_w,
        height: f.rem_h,
    }
}

/// Extent of the children on the horizontal axis: the cursor's advance
/// where children follow each other, else the farthest edge.
pub open spec fn extent_x(f: Flow, dir: DirectionMode) -> i64 {
    if advances_x(dir) { f.adv_x } else { f.reach_x }
}

/// Extent of the children on the vertical axis.
pub open spec fn extent_y(f: Flow, dir: DirectionMode) -> i64 {
    if advances_y(dir) { f.adv_y } else { f.reach_y }
}

/// Whether a node is a run of text.
pub open spec fn is_text(kind: NodeKind) -> bool {
    match kind {
        NodeKind::Text { .. } => true,
        _ => false,
    }
}

/// A node's box once the automatic axes wrap the children and the padding.
pub open spec fn back_fill(node: NodeData, area: NodeArea, f: Flow) -> NodeArea {
    if is_text(node.kind) {
        area
    } else {
        let pad = node.size.padding;
        let dir = node.size.direction;
        NodeArea {
            width: if node.size.width == SizeMode::Auto {
                sat_add(
                    sat_add(pad.left as int, extent_x(f, dir) as int),
                    pad.right as int,
                ) as i64
            } else {
                area.width
            },
            height: if node.size.height == SizeMode::Auto {
                sat_add(
                    sat_add(pad.top as int, extent_y(f, dir) as int),
                    pad.bottom as int,
                ) as i64
            } else {
                area.height
            },
            ..area
        }
    }
}

/// The origin of the inner region moved by the node's scroll offsets.
pub open spec fn origin_x(node: NodeData, area: NodeArea) -> i64 {
    sat_add(inner_of(area, node.size.padding).x as int, node.size.scroll_x as int) as i64
}

/// The vertical counterpart of `origin_x`.
pub open spec fn origin_y(node: NodeData, area: NodeArea) -> i64 {
    sat_add(inner_of(area, node.size.padding).y as int, node.size.scroll_y as int) as i64
}

/// The state after the first `k` children of `node` (own box `area`, own
/// layer `layer`) were laid out, and the registrations they made. A child
/// that does not resolve, or lies deeper than `fuel` allows, is skipped.
pub open spec fn walk_children(
    tree: Seq<Option<NodeData>>,
    node: NodeData,
    area: NodeArea,
    layer: i64,
    k: nat,
    fuel: nat,
) -> (Flow, Seq<(i64, RenderEntry)>)
    decreases fuel, 0nat, k,
{
    let inner = inner_of(area, node.size.padding);
    if k == 0 {
        (start_flow(inner), Seq::empty())
    } else {
        let (f, log) = walk_children(tree, node, area, layer, (k - 1) as nat, fuel);
        let ids = child_ids(node.kind);
        if k - 1 < ids.len() && fuel > 0 {
            match lookup(tree, ids[k - 1]) {
                Some(c) => {
                    let cand = child_candidate(origin_x(node, area), origin_y(node, area), f);
                    let (r, clog) = layout_of(tree, c, cand, inner, layer, (fuel - 1) as nat);
                    (advance_flow(f, node.size.direction, r), log + clog)
                },
                None => (f, log),
            }
        } else {
            (f, log)
        }
    }
}

/// The resolved box of `node` laid out in the space `cand` with parent box
/// `parent`, and the registrations its subtree makes, in order: each child's
/// subtree in document order, then the node itself.
pub open spec fn layout_of(
    tree: Seq<Option<NodeData>>,
    node: NodeData,
    cand: NodeArea,
    parent: NodeArea,
    inherited: i64,
    fuel: nat,
) -> (NodeArea, Seq<(i64, RenderEntry)>)
    decreases fuel, 1nat, 0nat,
{
    let area = area_of(&node, cand, parent);
    let layer = own_layer(&node, inherited);
    let (f, log) = walk_children(tree, node, area, layer, child_ids(node.kind).len(), fuel);
    let done = back_fill(node, area, f);
    (done, log.push((layer, RenderEntry { id: node.id, area: done })))
}

impl TreeSnapshot {
    /// The node that `id` resolves to, if any.
    pub fn resolve(&self, id: u64) -> (r: Option<&NodeData>)
        ensures
            match r {
                Some(n) => lookup(self.nodes@, id) == Some(*n),
                None => lookup(self.nodes@, id) is None,
            },
    {
        if id < self.nodes.len() as u64 {
            match &self.nodes[id as usize] {
                Some(n) => Some(n),
                None => None,
            }
        } else {
            None
        }
    }
}

/// The region inside a box's padding.
pub fn inner_area(area: NodeArea, padding: Padding) -> (r: NodeArea)
    ensures
        r == inner_of(area, padding),
{
    NodeArea {
        x: add_saturating(area.x, padding.left),
        y: add_saturating(area.y, padding.top),
        width: sub_saturating(area.width, add_saturating(padding.left, padding.right)),
        height: sub_saturating(area.height, add_saturating(padding.top, padding.bottom)),
    }
}

fn shrink_extent(remaining: i64, extent: i64) -> (r: i64)
    ensures
        r as int == shrink(remaining as int, extent as int),
{
    let r = sub_saturating(remaining, extent);
    if extent > r || r == 0 {
        extent
    } else {
        r
    }
}

/// The placement state after a child resolved to `child`.
pub fn advance(f: Flow, dir: DirectionMode, child: NodeArea) -> (r: Flow)
    ensures
        r == advance_flow(f, dir, child),
{
    let far_x = add_saturating(f.adv_x, child.width);
    let far_y = add_saturating(f.adv_y, child.height);
    let along_x = dir == DirectionMode::Horizontal || dir == DirectionMode::Both;
    let along_y = dir == DirectionMode::Vertical || dir == DirectionMode::Both;
    Flow {
        adv_x: if along_x { far_x } else { f.adv_x },
        adv_y: if along_y { far_y } else { f.adv_y },
        reach_x: if far_x > f.reach_x { far_x } else { f.reach_x },
        reach_y: if far_y > f.reach_y { far_y } else { f.reach_y },
        rem_w: shrink_extent(f.rem_w, child.width),
        rem_h: shrink_extent(f.rem_h, child.height),
    }
}

fn layout_node(
    tree: &TreeSnapshot,
    node_data: &NodeData,
    remaining_area: NodeArea,
    parent_area: NodeArea,
    layers: &mut Layers,
    inherited: i64,
    fuel: usize,
) -> (r: NodeArea)
    ensures
        r == layout_of(tree.nodes@, *node_data, remaining_area, parent_area, inherited, fuel as nat).0,
        final(layers)@ == old(layers)@ + layout_of(
            tree.nodes@,
            *node_data,
            remaining_area,
            parent_area,
            inherited,
            fuel as nat,
        ).1,
    decreases fuel,
{
    let ghost nodes = tree.nodes@;
    let ghost node = *node_data;
    let ghost start = layers@;
    let node_area = calculate_area(node_data, remaining_area, parent_area);
    let (node_layer, child_layer) = layers.calculate_layer(node_data, inherited);
    let padding = node_data.size.padding;
    let inner = inner_area(node_area, padding);
    let ox = add_saturating(inner.x, node_data.size.scroll_x);
    let oy = add_saturating(inner.y, node_data.size.scroll_y);
    let dir = node_data.size.direction;
    let mut flow = Flow {
        adv_x: 0,
        adv_y: 0,
        reach_x: 0,
        reach_y: 0,
        rem_w: inner.width,
        rem_h: inner.height,
    };
    let mut is_text_node = false;
    match &node_data.kind {
        NodeKind::Element { children, .. } => {
            let mut i: usize = 0;
            while i < children.len()
                invariant
                    i <= children@.len(),
                    child_ids(node.kind) == children@,
                    node == *node_data,
                    nodes == tree.nodes@,
                    inner == inner_of(node_area, node.size.padding),
                    ox == origin_x(node, node_area),
                    oy == origin_y(node, node_area),
                    child_layer == node_layer,
                    dir == node.size.direction,
                    walk_children(nodes, node, node_area, node_layer, i as nat, fuel as nat).0
                        == flow,
                    layers@ == start + walk_children(
                        nodes,
                        node,
                        node_area,
                        node_layer,
                        i as nat,
                        fuel as nat,
                    ).1,
                decreases children@.len() - i,
            {
                if fuel > 0 {
                    match tree.resolve(children[i]) {
                        Some(child) => {
                            let cand = NodeArea {
                                x: add_saturating(ox, flow.adv_x),
                                y: add_saturating(oy, flow.adv_y),
                                width: flow.rem_w,
                                height: flow.rem_h,
                            };
                            let child_area = layout_node(
                                tree,
                                child,
                                cand,
                                inner,
                                layers,
                                child_layer,
                                fuel - 1,
                            );
                            flow = advance(flow, dir, child_area);
                            assert(layers@ =~= start + walk_children(
                                nodes,
                                node,
                                node_area,
                                node_layer,
                                (i + 1) as nat,
                                fuel as nat,
                            ).1);
                        },
                        None => {},
                    }
                }
                i += 1;
            }
        },
        NodeKind::Text { .. } => {
            is_text_node = true;
        },
        NodeKind::Placeholder => {},
    }
    let mut done = node_area;
    if !is_text_node {
        if node_data.size.width == SizeMode::Auto {
            done.width = add_saturating(
                add_saturating(padding.left, if dir == DirectionMode::Vertical {
                    flow.reach_x
                } else {
                    flow.adv_x
                }),
                padding.right,
            );
        }
        if node_data.size.height == SizeMode::Auto {
            done.height = add_saturating(
                add_saturating(padding.top, if dir == DirectionMode::Horizontal {
                    flow.reach_y
                } else {
                    flow.adv_y
                }),
                padding.bottom,
            );
        }
    }
    layers.add_element(node_data, &done, node_layer);
    done
}

/// Lays out `node_data` and its subtree in the space `remaining_area`, with
/// `parent_area` as the reference for percentages, registering every visited
/// node into `layers`. Returns the node's resolved box.
pub fn calculate_node(
    tree: &TreeSnapshot,
    node_data: &NodeData,
    remaining_area: NodeArea,
    parent_area: NodeArea,
    layers: &mut Layers,
    inherited_relative_layer: i64,
) -> (r: NodeArea)
    ensures
        r == layout_of(
            tree.nodes@,
            *node_data,
            remaining_area,
            parent_area,
            inherited_relative_layer,
            tree.nodes@.len(),
        ).0,
        final(layers)@ == old(layers)@ + layout_of(
            tree.nodes@,
            *node_data,
            remaining_area,
            parent_area,
            inherited_relative_layer,
            tree.nodes@.len(),
        ).1,
{
    layout_node(
        tree,
        node_data,
        remaining_area,
        parent_area,
        layers,
        inherited_relative_layer,
        tree.nodes.len(),
    )
}

/// A full pass: the root laid out in the viewport, with the viewport as its
/// parent, starting from layer 0 and an empty registry.
pub open spec fn layout_pass(tree: Seq<Option<NodeData>>, root: NodeData, viewport: NodeArea) -> (
    NodeArea,
    Seq<(i64, RenderEntry)>,
) {
    layout_of(tree, root, viewport, viewport, 0, tree.len())
}

/// Runs one layout pass from `root` over a fresh registry and returns the
/// root's box and the registry.
pub fn run_layout(tree: &TreeSnapshot, root: &NodeData, viewport: NodeArea) -> (r: (NodeArea, Layers))
    ensures
        r.0 == layout_pass(tree.nodes@, *root, viewport).0,
        r.1@ == layout_pass(tree.nodes@, *root, viewport).1,
{
    let mut layers = Layers::new();
    let area = calculate_node(tree, root, viewport, viewport, &mut layers, 0);
    assert(layers@ =~= layout_pass(tree.nodes@, *root, viewport).1);
    (area, layers)
}

/// Whether no node of the snapshot sets an explicit layer.
pub open spec fn no_explicit_layers(tree: Seq<Option<NodeData>>) -> bool {
    forall|i: int| 0 <= i < tree.len() ==> (#[trigger] tree[i] matches Some(n) ==> n.relative_layer == 0)
}

proof fn lemma_walk_layers(
    tree: Seq<Option<NodeData>>,
    node: NodeData,
    area: NodeArea,
    layer: i64,
    k: nat,
    fuel: nat,
)
    requires
        no_explicit_layers(tree),
    ensures
        forall|i: int| 0 <= i < walk_children(tree, node, area, layer, k, fuel).1.len()
            ==> (#[trigger] walk_children(tree, node, area, layer, k, fuel).1[i]).0 == layer,
    decreases fuel, 0nat, k,
{
    if k > 0 {
        lemma_walk_layers(tree, node, area, layer, (k - 1) as nat, fuel);
        let ids = child_ids(node.kind);
        if k - 1 < ids.len() && fuel > 0 {
            match lookup(tree, ids[k - 1]) {
                Some(c) => {
                    let f = walk_children(tree, node, area, layer, (k - 1) as nat, fuel).0;
                    let cand = child_candidate(origin_x(node, area), origin_y(node, area), f);
                    let inner = inner_of(area, node.size.padding);
                    lemma_subtree_layers(tree, c, cand, inner, layer, (fuel - 1) as nat);
                    assert(own_layer(&c, layer) == layer);
                    let log = walk_children(tree, node, area, layer, (k - 1) as nat, fuel).1;
                    let clog = layout_of(tree, c, cand, inner, layer, (fuel - 1) as nat).1;
                    let full = walk_children(tree, node, area, layer, k, fuel).1;
                    assert(full == log + clog);
                    assert forall|i: int| 0 <= i < full.len() implies (#[trigger] full[i]).0
                        == layer by {
                        if i >= log.len() {
                            assert(full[i] == clog[i - log.len()]);
                        } else {
                            assert(full[i] == log[i]);
                        }
                    }
                },
                None => {
                    assert(walk_children(tree, node, area, layer, k, fuel) == walk_children(
                        tree, node, area, layer, (k - 1) as nat, fuel));
                },
            }
        } else {
            assert(walk_children(tree, node, area, layer, k, fuel) == walk_children(
                tree, node, area, layer, (k - 1) as nat, fuel));
        }
    }
}

proof fn lemma_subtree_layers(
    tree: Seq<Option<NodeData>>,
    node: NodeData,
    cand: NodeArea,
    parent: NodeArea,
    inherited: i64,
    fuel: nat,
)
    requires
        no_explicit_layers(tree),
    ensures
        forall|i: int| 0 <= i < layout_of(tree, node, cand, parent, inherited, fuel).1.len()
            ==> (#[trigger] layout_of(tree, node, cand, parent, inherited, fuel).1[i]).0
            == own_layer(&node, inherited),
    decreases fuel, 1nat, 0nat,
{
    let area = area_of(&node, cand, parent);
    let layer = own_layer(&node, inherited);
    lemma_walk_layers(tree, node, area, layer, child_ids(node.kind).len(), fuel);
    let (f, log) = walk_children(tree, node, area, layer, child_ids(node.kind).len(), fuel);
    let full = layout_of(tree, node, cand, parent, inherited, fuel).1;
    assert(full == log.push((layer, RenderEntry { id: node.id, area: back_fill(node, area, f) })));
    assert forall|i: int| 0 <= i < full.len() implies (#[trigger] full[i]).0 == layer by {
        if i < log.len() {
            assert(full[i] == log[i]);
        }
    }
}

/// Layer inheritance: where no node of the snapshot sets an explicit layer,
/// a node and its whole subtree register into one bucket: the inherited
/// layer moved by the node's own offset. Without an offset of its own that is
/// the inherited layer, its parent's bucket; with offset `2` below bucket `0`
/// it is bucket `2`.
pub proof fn lemma_layer_inheritance(
    tree: Seq<Option<NodeData>>,
    node: NodeData,
    cand: NodeArea,
    parent: NodeArea,
    inherited: i64,
    fuel: nat,
)
    requires
        no_explicit_layers(tree),
    ensures
        forall|i: int| 0 <= i < layout_of(tree, node, cand, parent, inherited, fuel).1.len()
            ==> (#[trigger] layout_of(tree, node, cand, parent, inherited, fuel).1[i]).0
            == own_layer(&node, inherited),
        node.relative_layer == 0 ==> own_layer(&node, inherited) == inherited,
        inherited == 0 ==> own_layer(&node, inherited) == node.relative_layer,
{
    lemma_subtree_layers(tree, node, cand, parent, inherited, fuel);
}

/// A pass is a function of the snapshot and the viewport alone: two passes on
/// equal snapshots and viewports give the same rectangles and the same
/// buckets. (`run_layout` starts each pass from an empty registry.)
pub proof fn lemma_pass_repeatable(
    tree1: Seq<Option<NodeData>>,
    tree2: Seq<Option<NodeData>>,
    root: NodeData,
    viewport1: NodeArea,
    viewport2: NodeArea,
)
    requires
        tree1 == tree2,
        viewport1 == viewport2,
    ensures
        layout_pass(tree1, root, viewport1).0 == layout_pass(tree2, root, viewport2).0,
        forall|layer: i64|
            #![trigger bucket(layout_pass(tree1, root, viewport1).1, layer)]
            bucket(layout_pass(tree1, root, viewport1).1, layer) == bucket(
                layout_pass(tree2, root, viewport2).1,
                layer,
            ),
{
}

proof fn lemma_walk_sizes(
    tree: Seq<Option<NodeData>>,
    n1: NodeData,
    n2: NodeData,
    a1: NodeArea,
    a2: NodeArea,
    layer: i64,
    k: nat,
    fuel: nat,
)
    requires
        n1.kind == n2.kind,
        n1.size.padding == n2.size.padding,
        n1.size.direction == n2.size.direction,
        a1.width == a2.width,
        a1.height == a2.height,
    ensures
        walk_children(tree, n1, a1, layer, k, fuel).0 == walk_children(tree, n2, a2, layer, k, fuel).0,
    decreases fuel, 0nat, k,
{
    if k > 0 {
        lemma_walk_sizes(tree, n1, n2, a1, a2, layer, (k - 1) as nat, fuel);
        let ids = child_ids(n1.kind);
        if k - 1 < ids.len() && fuel > 0 {
            match lookup(tree, ids[k - 1]) {
                Some(c) => {
                    let f1 = walk_children(tree, n1, a1, layer, (k - 1) as nat, fuel).0;
                    let f2 = walk_children(tree, n2, a2, layer, (k - 1) as nat, fuel).0;
                    let cand1 = child_candidate(origin_x(n1, a1), origin_y(n1, a1), f1);
                    let cand2 = child_candidate(origin_x(n2, a2), origin_y(n2, a2), f2);
                    let inner1 = inner_of(a1, n1.size.padding);
                    let inner2 = inner_of(a2, n2.size.padding);
                    lemma_layout_sizes(tree, c, cand1, cand2, inner1, inner2, layer, (fuel - 1) as nat);
                },
                None => {},
            }
        }
    }
}

proof fn lemma_layout_sizes(
    tree: Seq<Option<NodeData>>,
    node: NodeData,
    cand1: NodeArea,
    cand2: NodeArea,
    parent1: NodeArea,
    parent2: NodeArea,
    inherited: i64,
    fuel: nat,
)
    requires
        cand1.width == cand2.width,
        cand1.height == cand2.height,
        parent1.width == parent2.width,
        parent1.height == parent2.height,
    ensures
        layout_of(tree, node, cand1, parent1, inherited, fuel).0.width == layout_of(
            tree,
            node,
            cand2,
            parent2,
            inherited,
            fuel,
        ).0.width,
        layout_of(tree, node, cand1, parent1, inherited, fuel).0.height == layout_of(
            tree,
            node,
            cand2,
            parent2,
            inherited,
            fuel,
        ).0.height,
        layout_of(tree, node, cand1, parent1, inherited, fuel).0.x == cand1.x,
        layout_of(tree, node, cand1, parent1, inherited, fuel).0.y == cand1.y,
    decreases fuel, 1nat, 0nat,
{
    let a1 = area_of(&node, cand1, parent1);
    let a2 = area_of(&node, cand2, parent2);
    let layer = own_layer(&node, inherited);
    lemma_walk_sizes(tree, node, node, a1, a2, layer, child_ids(node.kind).len(), fuel);
}

/// Whether two nodes differ in their vertical scroll offset at most.
pub open spec fn differ_in_scroll_y(n1: NodeData, n2: NodeData) -> bool {
    &&& n1.id == n2.id
    &&& n1.kind == n2.kind
    &&& n1.relative_layer == n2.relative_layer
    &&& n1.size.width == n2.size.width
    &&& n1.size.height == n2.size.height
    &&& n1.size.min_width == n2.size.min_width
    &&& n1.size.min_height == n2.size.min_height
    &&& n1.size.padding == n2.size.padding
    &&& n1.size.scroll_x == n2.size.scroll_x
    &&& n1.size.direction == n2.size.direction
}

/// Scrolling: giving a node a vertical scroll offset leaves its own box as it
/// was, and moves the box of each of its children (the child placed after
/// the first `k` children) by the change of offset on the vertical axis
/// only, where the moved coordinates stay within `i64`.
pub proof fn lemma_scroll_shifts_children(
    tree: Seq<Option<NodeData>>,
    node: NodeData,
    scrolled: NodeData,
    cand: NodeArea,
    parent: NodeArea,
    inherited: i64,
    fuel: nat,
    k: nat,
)
    requires
        differ_in_scroll_y(node, scrolled),
    ensures
        layout_of(tree, scrolled, cand, parent, inherited, fuel).0 == layout_of(
            tree,
            node,
            cand,
            parent,
            inherited,
            fuel,
        ).0,
        ({
            let area = area_of(&node, cand, parent);
            let layer = own_layer(&node, inherited);
            let inner = inner_of(area, node.size.padding);
            let f = walk_children(tree, node, area, layer, k, fuel).0;
            let ids = child_ids(node.kind);
            &&& walk_children(tree, scrolled, area, layer, k, fuel).0 == f
            &&& (k < ids.len() && fuel > 0 && lookup(tree, ids[k as int]) is Some
                && i64::MIN <= inner.y + node.size.scroll_y <= i64::MAX
                && i64::MIN <= inner.y + scrolled.size.scroll_y <= i64::MAX
                && i64::MIN <= inner.y + node.size.scroll_y + f.adv_y <= i64::MAX
                && i64::MIN <= inner.y + scrolled.size.scroll_y + f.adv_y <= i64::MAX) ==> {
                let c = lookup(tree, ids[k as int]).unwrap();
                let before = layout_of(
                    tree,
                    c,
                    child_candidate(origin_x(node, area), origin_y(node, area), f),
                    inner,
                    layer,
                    (fuel - 1) as nat,
                ).0;
                let after = layout_of(
                    tree,
                    c,
                    child_candidate(origin_x(scrolled, area), origin_y(scrolled, area), f),
                    inner,
                    layer,
                    (fuel - 1) as nat,
                ).0;
                &&& after.y == before.y + scrolled.size.scroll_y - node.size.scroll_y
                &&& after.x == before.x
                &&& after.width == before.width
                &&& after.height == before.height
            }
        }),
{
    let area = area_of(&node, cand, parent);
    assert(area_of(&scrolled, cand, parent) == area);
    let layer = own_layer(&node, inherited);
    assert(own_layer(&scrolled, inherited) == layer);
    lemma_walk_sizes(tree, node, scrolled, area, area, layer, child_ids(node.kind).len(), fuel);
    lemma_walk_sizes(tree, node, scrolled, area, area, layer, k, fuel);
    let inner = inner_of(area, node.size.padding);
    let f = walk_children(tree, node, area, layer, k, fuel).0;
    let ids = child_ids(node.kind);
    if k < ids.len() && fuel > 0 && lookup(tree, ids[k as int]) is Some {
        let c = lookup(tree, ids[k as int]).unwrap();
        let cb = child_candidate(origin_x(node, area), origin_y(node, area), f);
        let ca = child_candidate(origin_x(scrolled, area), origin_y(scrolled, area), f);
        lemma_layout_sizes(tree, c, ca, cb, inner, inner, layer, (fuel - 1) as nat);
        lemma_layout_sizes(tree, c, cb, ca, inner, inner, layer, (fuel - 1) as nat);
    }
}

} // verus!
