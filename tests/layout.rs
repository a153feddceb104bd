use freya_layout::area::{calculate_area, percentage};
use freya_layout::layers::Layers;
use freya_layout::layout::{calculate_node, inner_area, run_layout, TreeSnapshot};
use freya_layout::node::{DirectionMode, NodeArea, NodeData, NodeKind, Padding, Size, SizeMode};

fn area(x: i64, y: i64, width: i64, height: i64) -> NodeArea {
    NodeArea { x, y, width, height }
}

fn size(width: SizeMode, height: SizeMode, direction: DirectionMode) -> Size {
    Size {
        width,
        height,
        min_height: SizeMode::Auto,
        min_width: SizeMode::Auto,
        padding: Padding { top: 0, right: 0, bottom: 0, left: 0 },
        scroll_y: 0,
        scroll_x: 0,
        direction,
    }
}

fn element(id: u64, size: Size, children: Vec<u64>) -> NodeData {
    NodeData {
        id,
        kind: NodeKind::Element { tag: "rect".to_string(), children },
        size,
        relative_layer: 0,
    }
}

fn leaf(id: u64, width: SizeMode, height: SizeMode) -> NodeData {
    element(id, size(width, height, DirectionMode::Vertical), vec![])
}

fn snapshot(nodes: Vec<NodeData>) -> TreeSnapshot {
    TreeSnapshot { nodes: nodes.into_iter().map(Some).collect() }
}

fn rect_of(layers: &Layers, layer: i64, id: u64) -> NodeArea {
    layers.elements_in(layer).into_iter().find(|e| e.id == id).unwrap().area
}

fn viewport() -> NodeArea {
    area(0, 0, 800, 600)
}

#[test]
fn half_size_child_of_viewport_root() {
    let root = element(0, Size::expanded(), vec![1]);
    let child = leaf(1, SizeMode::Percentage(50), SizeMode::Percentage(50));
    let tree = snapshot(vec![root, child]);
    let (root_area, layers) = run_layout(&tree, tree.nodes[0].as_ref().unwrap(), viewport());
    assert_eq!(root_area, area(0, 0, 800, 600));
    assert_eq!(rect_of(&layers, 0, 1), area(0, 0, 400, 300));
}

#[test]
fn vertical_auto_parent_wraps_two_children() {
    let root = element(0, size(SizeMode::Auto, SizeMode::Auto, DirectionMode::Vertical), vec![1, 2]);
    let a = leaf(1, SizeMode::Percentage(100), SizeMode::Manual(50));
    let b = leaf(2, SizeMode::Percentage(100), SizeMode::Manual(50));
    let tree = snapshot(vec![root, a, b]);
    let (root_area, layers) = run_layout(&tree, tree.nodes[0].as_ref().unwrap(), viewport());
    let first = rect_of(&layers, 0, 1);
    let second = rect_of(&layers, 0, 2);
    assert_eq!(root_area.height, 100);
    assert_eq!(root_area.width, first.width.max(second.width));
    assert_eq!(root_area.width, 800);
    assert_eq!(second.y, first.y + 50);
}

#[test]
fn padding_splits_evenly_over_the_sides() {
    let mut s = Size::default();
    let attrs = vec![freya_layout::attributes::Attribute {
        name: "padding".to_string(),
        value: freya_layout::attributes::AttributeValue::Text("20".to_string()),
    }];
    s.reduce(&attrs);
    assert_eq!(s.padding, Padding { top: 10, right: 10, bottom: 10, left: 10 });
    let inner = inner_area(area(0, 0, 400, 300), s.padding);
    assert_eq!((inner.x, inner.y), (10, 10));
    assert_eq!((inner.width, inner.height), (380, 280));
    let wide = Padding { top: 20, right: 20, bottom: 20, left: 20 };
    assert_eq!(inner_area(area(0, 0, 400, 300), wide), area(20, 20, 360, 260));
}

fn scrolled_tree(scroll_y: i64, auto_height: bool) -> TreeSnapshot {
    let height = if auto_height { SizeMode::Auto } else { SizeMode::Manual(200) };
    let mut s = size(SizeMode::Manual(300), height, DirectionMode::Vertical);
    s.scroll_y = scroll_y;
    let root = element(0, s, vec![1, 2]);
    let a = element(1, size(SizeMode::Manual(100), SizeMode::Manual(40), DirectionMode::Vertical), vec![3]);
    let b = leaf(2, SizeMode::Manual(100), SizeMode::Manual(60));
    let c = leaf(3, SizeMode::Manual(10), SizeMode::Manual(10));
    snapshot(vec![root, a, b, c])
}

#[test]
fn scroll_moves_children_not_the_node() {
    for auto_height in [false, true] {
        let plain = scrolled_tree(0, auto_height);
        let scrolled = scrolled_tree(-30, auto_height);
        let (a0, l0) = run_layout(&plain, plain.nodes[0].as_ref().unwrap(), viewport());
        let (a1, l1) = run_layout(&scrolled, scrolled.nodes[0].as_ref().unwrap(), viewport());
        assert_eq!(a0, a1);
        if auto_height {
            assert_eq!(a1.height, 100);
        }
        for id in 1..4u64 {
            let r0 = rect_of(&l0, 0, id);
            let r1 = rect_of(&l1, 0, id);
            assert_eq!(r1.y, r0.y - 30);
            assert_eq!((r1.x, r1.width, r1.height), (r0.x, r0.width, r0.height));
        }
    }
}

#[test]
fn layers_are_inherited_and_offset() {
    let root = element(0, Size::expanded(), vec![1, 2]);
    let plain = leaf(1, SizeMode::Manual(10), SizeMode::Manual(10));
    let mut raised = element(2, size(SizeMode::Manual(50), SizeMode::Manual(50), DirectionMode::Vertical), vec![3]);
    raised.relative_layer = 2;
    let grandchild = leaf(3, SizeMode::Manual(5), SizeMode::Manual(5));
    let tree = snapshot(vec![root, plain, raised, grandchild]);
    let (_, layers) = run_layout(&tree, tree.nodes[0].as_ref().unwrap(), viewport());
    let ids = |layer: i64| layers.elements_in(layer).iter().map(|e| e.id).collect::<Vec<u64>>();
    assert_eq!(ids(0), vec![1, 0]);
    assert_eq!(ids(2), vec![3, 2]);
    assert_eq!(layers.sorted_layers(), vec![0, 2]);
    assert_eq!(layers.len(), 4);
}

#[test]
fn a_pass_repeats_exactly() {
    let tree = scrolled_tree(-30, true);
    let root = tree.nodes[0].as_ref().unwrap();
    let (a0, l0) = run_layout(&tree, root, viewport());
    let (a1, l1) = run_layout(&tree, root, viewport());
    assert_eq!(a0, a1);
    assert_eq!(l0.sorted_layers(), l1.sorted_layers());
    for layer in l0.sorted_layers() {
        assert_eq!(l0.elements_in(layer), l1.elements_in(layer));
    }
}

#[test]
fn manual_size_ignores_the_parent_unless_min_is_larger() {
    let mut n = leaf(1, SizeMode::Manual(120), SizeMode::Manual(30));
    assert_eq!(calculate_area(&n, area(5, 6, 10, 10), area(0, 0, 999, 999)), area(5, 6, 120, 30));
    assert_eq!(calculate_area(&n, area(5, 6, 10, 10), area(0, 0, 1, 1)), area(5, 6, 120, 30));
    n.size.min_width = SizeMode::Manual(200);
    n.size.min_height = SizeMode::Percentage(50);
    assert_eq!(calculate_area(&n, area(0, 0, 10, 10), area(0, 0, 100, 100)), area(0, 0, 200, 50));
}

#[test]
fn percentage_rounds_half_away_from_zero() {
    let n = leaf(1, SizeMode::Percentage(33), SizeMode::Percentage(50));
    assert_eq!(calculate_area(&n, area(0, 0, 0, 0), area(0, 0, 100, 101)), area(0, 0, 33, 51));
    assert_eq!(percentage(101, 50), 51);
    assert_eq!(percentage(-101, 50), -51);
    assert_eq!(percentage(3, 10), 0);
    assert_eq!(percentage(5, 10), 1);
    assert_eq!(percentage(i64::MAX, 200), i64::MAX);
}

#[test]
fn label_height_is_fixed_when_auto() {
    let label = NodeData {
        id: 4,
        kind: NodeKind::Element { tag: "label".to_string(), children: vec![] },
        size: size(SizeMode::Auto, SizeMode::Auto, DirectionMode::Vertical),
        relative_layer: 0,
    };
    assert_eq!(calculate_area(&label, area(0, 0, 300, 300), area(0, 0, 300, 300)).height, 18);
    let mut tall = label;
    tall.size.height = SizeMode::Manual(40);
    assert_eq!(calculate_area(&tall, area(0, 0, 300, 300), area(0, 0, 300, 300)).height, 40);
}

#[test]
fn unresolvable_children_are_skipped() {
    let root = element(0, size(SizeMode::Auto, SizeMode::Auto, DirectionMode::Vertical), vec![7, 1, 9]);
    let a = leaf(1, SizeMode::Manual(20), SizeMode::Manual(20));
    let tree = TreeSnapshot { nodes: vec![Some(root), Some(a), None] };
    let mut layers = Layers::new();
    let r = calculate_node(&tree, tree.nodes[0].as_ref().unwrap(), viewport(), viewport(), &mut layers, 0);
    assert_eq!(r, area(0, 0, 20, 20));
    assert_eq!(layers.len(), 2);
}

#[test]
fn horizontal_and_both_directions_advance() {
    let row = element(0, size(SizeMode::Auto, SizeMode::Auto, DirectionMode::Horizontal), vec![1, 2]);
    let a = leaf(1, SizeMode::Manual(30), SizeMode::Manual(10));
    let b = leaf(2, SizeMode::Manual(40), SizeMode::Manual(25));
    let tree = snapshot(vec![row, a, b]);
    let (r, layers) = run_layout(&tree, tree.nodes[0].as_ref().unwrap(), viewport());
    assert_eq!(r, area(0, 0, 70, 25));
    assert_eq!(rect_of(&layers, 0, 2), area(30, 0, 40, 25));

    let diag = element(0, size(SizeMode::Auto, SizeMode::Auto, DirectionMode::Both), vec![1, 2]);
    let a = leaf(1, SizeMode::Manual(30), SizeMode::Manual(10));
    let b = leaf(2, SizeMode::Manual(40), SizeMode::Manual(25));
    let tree = snapshot(vec![diag, a, b]);
    let (r, layers) = run_layout(&tree, tree.nodes[0].as_ref().unwrap(), viewport());
    assert_eq!(r, area(0, 0, 70, 35));
    assert_eq!(rect_of(&layers, 0, 2), area(30, 10, 40, 25));
}

#[test]
fn remaining_space_resets_to_a_child_that_overflows() {
    let col = element(0, size(SizeMode::Manual(100), SizeMode::Manual(100), DirectionMode::Vertical), vec![1, 2]);
    let big = leaf(1, SizeMode::Manual(50), SizeMode::Manual(150));
    let text = NodeData {
        id: 2,
        kind: NodeKind::Text { text: "fills".to_string() },
        size: size(SizeMode::Auto, SizeMode::Auto, DirectionMode::Vertical),
        relative_layer: 0,
    };
    let tree = snapshot(vec![col, big, text]);
    let (_, layers) = run_layout(&tree, tree.nodes[0].as_ref().unwrap(), viewport());
    // 100 - 150 = -50 is smaller than the child, so the next child is offered 150;
    // 100 - 50 = 50 is kept on the other axis.
    assert_eq!(rect_of(&layers, 0, 2), area(0, 150, 50, 150));
}

#[test]
fn text_nodes_are_not_back_filled() {
    let text = NodeData {
        id: 0,
        kind: NodeKind::Text { text: "hi".to_string() },
        size: size(SizeMode::Auto, SizeMode::Auto, DirectionMode::Vertical),
        relative_layer: 0,
    };
    let placeholder = NodeData {
        id: 1,
        kind: NodeKind::Placeholder,
        size: size(SizeMode::Auto, SizeMode::Auto, DirectionMode::Vertical),
        relative_layer: 0,
    };
    let tree = TreeSnapshot { nodes: vec![] };
    let mut layers = Layers::new();
    assert_eq!(calculate_node(&tree, &text, area(1, 2, 30, 40), viewport(), &mut layers, 3), area(1, 2, 30, 40));
    assert_eq!(calculate_node(&tree, &placeholder, area(1, 2, 30, 40), viewport(), &mut layers, 0), area(1, 2, 0, 0));
    assert_eq!(layers.sorted_layers(), vec![0, 3]);
}
