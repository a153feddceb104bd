//! Resolution of one node's own box from its size attributes.
use vstd::prelude::*;
use crate::node::{is_label, NodeArea, NodeData, SizeMode};

verus! {

/// A value clamped into the range of `i64`.
pub open spec fn clamp_i64(v: int) -> int {
    if v > i64::MAX {
        i64::MAX as int
    } else if v < i64::MIN {
        i64::MIN as int
    } else {
        v
    }
}

/// Saturating sum of two layout values.
pub open spec fn sat_add(a: int, b: int) -> int {
    clamp_i64(a + b)
}

/// Saturating difference of two layout values.
pub open spec fn sat_sub(a: int, b: int) -> int {
    clamp_i64(a - b)
}

/// `n / d` rounded to the nearest integer, halves away from zero.
pub open spec fn round_div(n: int, d: int) -> int
    recommends
        d > 0,
{
    if n >= 0 {
        n / d + if 2 * (n % d) >= d { 1int } else { 0int }
    } else {
        -((-n) / d + if 2 * ((-n) % d) >= d { 1int } else { 0int })
    }
}

/// `per` percent of `total`, rounded, within the range of `i64`.
pub open spec fn percent_of(total: int, per: int) -> int {
    clamp_i64(round_div(total * per, 100))
}

/// The size that a mode gives on one axis, before the minimum applies.
pub open spec fn resolve_size(mode: SizeMode, candidate: int, parent: int) -> int {
    match mode {
        SizeMode::Manual(v) => v as int,
        SizeMode::Percentage(p) => percent_of(parent, p as int),
        SizeMode::Auto => candidate,
    }
}

/// The minimum that a mode gives on one axis; `Auto` sets none.
pub open spec fn resolve_min(mode: SizeMode, parent: int) -> Option<int> {
    match mode {
        SizeMode::Manual(v) => Some(v as int),
        SizeMode::Percentage(p) => Some(percent_of(parent, p as int)),
        SizeMode::Auto => None,
    }
}

/// A value raised to the minimum that a mode gives, if any.
pub open spec fn apply_min(mode: SizeMode, value: int, parent: int) -> int {
    match resolve_min(mode, parent) {
        Some(m) => if m > value { m } else { value },
        None => value,
    }
}

/// Fixed automatic height of a text label, which is not measured.
pub const LABEL_HEIGHT: i64 = 18;

/// The width of a node's own box.
pub open spec fn area_width(node: &NodeData, candidate: NodeArea, parent: NodeArea) -> int {
    apply_min(
        node.size.min_width,
        resolve_size(node.size.width, candidate.width as int, parent.width as int),
        parent.width as int,
    )
}

/// The height of a node's own box before the minimum applies.
pub open spec fn base_height(node: &NodeData, candidate: NodeArea, parent: NodeArea) -> int {
    if node.size.height == SizeMode::Auto && is_label(&node.kind) {
        LABEL_HEIGHT as int
    } else {
        resolve_size(node.size.height, candidate.height as int, parent.height as int)
    }
}

/// The height of a node's own box.
pub open spec fn area_height(node: &NodeData, candidate: NodeArea, parent: NodeArea) -> int {
    apply_min(node.size.min_height, base_height(node, candidate, parent), parent.height as int)
}

/// A node's own box: at the candidate's position, sized per axis.
pub open spec fn area_of(node: &NodeData, candidate: NodeArea, parent: NodeArea) -> NodeArea {
    NodeArea {
        x: candidate.x,
        y: candidate.y,
        width: area_width(node, candidate, parent) as i64,
        height: area_height(node, candidate, parent) as i64,
    }
}

/// A `Manual` width or height resolves to its value, whatever the parent's
/// size, unless the minimum on that axis exceeds it; then the minimum wins.
pub proof fn lemma_manual_size(node: &NodeData, candidate: NodeArea, parent: NodeArea)
    ensures
        node.size.width matches SizeMode::Manual(v) ==> area_width(node, candidate, parent) == (
        match resolve_min(node.size.min_width, parent.width as int) {
            Some(m) => if m > v { m } else { v as int },
            None => v as int,
        }),
        node.size.height matches SizeMode::Manual(v) ==> area_height(node, candidate, parent) == (
        match resolve_min(node.size.min_height, parent.height as int) {
            Some(m) => if m > v { m } else { v as int },
            None => v as int,
        }),
{
}

/// A `Percentage(p)` width or height resolves to `p` percent of the parent's
/// size on that axis, rounded, where that value fits in `i64` and no larger
/// minimum applies.
pub proof fn lemma_percentage_size(node: &NodeData, candidate: NodeArea, parent: NodeArea)
    ensures
        node.size.width matches SizeMode::Percentage(p) ==> {
            let v = round_div(parent.width * p, 100);
            i64::MIN <= v <= i64::MAX && !(resolve_min(node.size.min_width, parent.width as int)
                matches Some(m) && m > v) ==> area_width(node, candidate, parent) == v
        },
        node.size.height matches SizeMode::Percentage(p) ==> {
            let v = round_div(parent.height * p, 100);
            i64::MIN <= v <= i64::MAX && !(resolve_min(node.size.min_height, parent.height as int)
                matches Some(m) && m > v) ==> area_height(node, candidate, parent) == v
        },
{
}

/// Clamps a wide value into `i64`.
pub fn clamp_to_i64(v: i128) -> (r: i64)
    ensures
        r as int == clamp_i64(v as int),
{
    if v > i64::MAX as i128 {
        i64::MAX
    } else if v < i64::MIN as i128 {
        i64::MIN
    } else {
        v as i64
    }
}

/// Adds two layout values, saturating at the bounds of `i64`.
pub fn add_saturating(a: i64, b: i64) -> (r: i64)
    ensures
        r as int == sat_add(a as int, b as int),
{
    clamp_to_i64(a as i128 + b as i128)
}

/// Subtracts two layout values, saturating at the bounds of `i64`.
pub fn sub_saturating(a: i64, b: i64) -> (r: i64)
    ensures
        r as int == sat_sub(a as int, b as int),
{
    clamp_to_i64(a as i128 - b as i128)
}

/// `per` percent of `total`, rounded halves away from zero.
pub fn percentage(total: i64, per: i64) -> (r: i64)
    ensures
        r as int == percent_of(total as int, per as int),
{
    let t = total as i128;
    let p = per as i128;
    assert(-0x8000_0000_0000_0000 <= t <= 0x7fff_ffff_ffff_ffff);
    assert(-0x8000_0000_0000_0000 <= p <= 0x7fff_ffff_ffff_ffff);
    assert(-0x4000_0000_0000_0000_0000_0000_0000_0000 <= t * p <= 0x4000_0000_0000_0000_0000_0000_0000_0000)
        by (nonlinear_arith)
        requires
            -0x8000_0000_0000_0000 <= t <= 0x7fff_ffff_ffff_ffff,
            -0x8000_0000_0000_0000 <= p <= 0x7fff_ffff_ffff_ffff,
    ;
    let n = t * p;
    let m: i128 = if n >= 0 { n } else { -n };
    let half_up: i128 = if 2 * (m % 100) >= 100 { 1 } else { 0 };
    let q: i128 = m / 100 + half_up;
    let rounded: i128 = if n >= 0 { q } else { -q };
    clamp_to_i64(rounded)
}

fn resolve_axis(mode: SizeMode, candidate: i64, parent: i64) -> (r: i64)
    ensures
        r as int == resolve_size(mode, candidate as int, parent as int),
{
    match mode {
        SizeMode::Manual(v) => v,
        SizeMode::Percentage(p) => percentage(parent, p),
        SizeMode::Auto => candidate,
    }
}

fn raise_to_min(mode: SizeMode, value: i64, parent: i64) -> (r: i64)
    ensures
        r as int == apply_min(mode, value as int, parent as int),
{
    match mode {
        SizeMode::Manual(v) => if v > value { v } else { value },
        SizeMode::Percentage(p) => {
            let by_per = percentage(parent, p);
            if by_per > value { by_per } else { value }
        },
        SizeMode::Auto => value,
    }
}

/// Resolves a node's own box from its attributes, the space offered to it
/// (`area`) and its parent's resolved box, the reference for percentages.
pub fn calculate_area(node_data: &NodeData, area: NodeArea, parent_area: NodeArea) -> (r: NodeArea)
    ensures
        r == area_of(node_data, area, parent_area),
{
    let width = resolve_axis(node_data.size.width, area.width, parent_area.width);
    let mut height = resolve_axis(node_data.size.height, area.height, parent_area.height);
    if node_data.size.height == SizeMode::Auto && node_data.is_label() {
        height = LABEL_HEIGHT;
    }
    let height = raise_to_min(node_data.size.min_height, height, parent_area.height);
    let width = raise_to_min(node_data.size.min_width, width, parent_area.width);
    NodeArea { x: area.x, y: area.y, width, height }
}

} // verus!
