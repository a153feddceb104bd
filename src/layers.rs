//! The layer registry: resolved rectangles grouped by paint layer.
use vstd::prelude::*;
use crate::area::{add_saturating, sat_add};
use crate::node::{NodeArea, NodeData};

verus! {

/// A node registered into a layer, with its resolved rectangle.
#[derive(Clone, Copy, Debug, PartialEq, Eq, Structural)]
pub struct RenderEntry {
    pub id: u64,
    pub area: NodeArea,
}

/// Registrations in the order they were made, each with its layer.
pub struct Layers {
    entries: Vec<(i64, RenderEntry)>,
}

/// The entries of one layer bucket, in registration order.
pub open spec fn bucket(log: Seq<(i64, RenderEntry)>, layer: i64) -> Seq<RenderEntry>
    decreases log.len(),
{
    if log.len() == 0 {
        Seq::empty()
    } else {
        let rest = bucket(log.drop_last(), layer);
        if log.last().0 == layer {
            rest.push(log.last().1)
        } else {
            rest
        }
    }
}

/// Whether some registration went into `layer`.
pub open spec fn has_layer(log: Seq<(i64, RenderEntry)>, layer: i64) -> bool {
    exists|i: int| 0 <= i < log.len() && #[trigger] log[i].0 == layer
}

/// The layer a node is painted in: the inherited layer moved by the node's
/// own relative offset. Its children inherit the same value.
pub open spec fn own_layer(node: &NodeData, inherited: i64) -> i64 {
    sat_add(inherited as int, node.relative_layer as int) as i64
}

impl View for Layers {
    type V = Seq<(i64, RenderEntry)>;

    closed spec fn view(&self) -> Seq<(i64, RenderEntry)> {
        self.entries@
    }
}

impl Layers {
    /// An empty registry.
    pub fn new() -> (r: Self)
        ensures
            r@ == Seq::<(i64, RenderEntry)>::empty(),
    {
        Layers { entries: Vec::new() }
    }

    /// The layer of `node` and the layer its children inherit.
    pub fn calculate_layer(&self, node: &NodeData, inherited: i64) -> (r: (i64, i64))
        ensures
            r.0 == own_layer(node, inherited),
            r.1 == r.0,
    {
        let layer = add_saturating(inherited, node.relative_layer as i64);
        (layer, layer)
    }

    /// Appends a node's rectangle to the bucket of `layer`.
    pub fn add_element(&mut self, node: &NodeData, area: &NodeArea, layer: i64)
        ensures
            final(self)@ == old(self)@.push((layer, RenderEntry { id: node.id, area: *area })),
    {
        self.entries.push((layer, RenderEntry { id: node.id, area: *area }));
    }

    /// Number of registrations over all layers.
    pub fn len(&self) -> (r: usize)
        ensures
            r == self@.len(),
    {
        self.entries.len()
    }

    /// The entries of one layer, in registration order.
    pub fn elements_in(&self, layer: i64) -> (r: Vec<RenderEntry>)
        ensures
            r@ == bucket(self@, layer),
    {
        let mut r: Vec<RenderEntry> = Vec::new();
        let mut i: usize = 0;
        while i < self.entries.len()
            invariant
                i <= self.entries@.len(),
                r@ == bucket(self.entries@.subrange(0, i as int), layer),
            decreases self.entries@.len() - i,
        {
            assert(self.entries@.subrange(0, i + 1).drop_last() =~= self.entries@.subrange(0, i as int));
            let (l, e) = self.entries[i];
            if l == layer {
                r.push(e);
            }
            i += 1;
        }
        assert(self.entries@.subrange(0, i as int) =~= self.entries@);
        r
    }

    /// The layers that hold registrations, each once, in ascending order:
    /// the order of back-to-front painting (descending for hit testing).
    pub fn sorted_layers(&self) -> (r: Vec<i64>)
        ensures
            forall|a: int, b: int| 0 <= a < b < r@.len() ==> r@[a] < r@[b],
            forall|l: i64| r@.contains(l) <==> has_layer(self@, l),
    {
        let mut r: Vec<i64> = Vec::new();
        let mut i: usize = 0;
        while i < self.entries.len()
            invariant
                i <= self.entries@.len(),
                forall|a: int, b: int| 0 <= a < b < r@.len() ==> r@[a] < r@[b],
                forall|l: i64| r@.contains(l) <==> has_layer(self.entries@.subrange(0, i as int), l),
            decreases self.entries@.len() - i,
        {
            let l = self.entries[i].0;
            let ghost pre = r@;
            let mut p: usize = 0;
            while p < r.len() && r[p] < l
                invariant
                    p <= r@.len(),
                    r@ == pre,
                    forall|a: int| 0 <= a < p ==> r@[a] < l,
                decreases r@.len() - p,
            {
                p += 1;
            }
            if p < r.len() && r[p] == l {
            } else {
                r.insert(p, l);
                assert forall|a: int, b: int| 0 <= a < b < r@.len() implies r@[a] < r@[b] by {
                    if b < p {
                    } else if b == p {
                    } else if a < p {
                        assert(r@[b] == pre[b - 1]);
                        assert(p < pre.len() ==> pre[p as int] > l);
                        if b - 1 > p {
                            assert(pre[p as int] < pre[b - 1]);
                        }
                    } else if a == p {
                        assert(r@[b] == pre[b - 1]);
                        assert(pre[p as int] > l);
                        if b - 1 > p {
                            assert(pre[p as int] < pre[b - 1]);
                        }
                    } else {
                        assert(r@[a] == pre[a - 1]);
                        assert(r@[b] == pre[b - 1]);
                    }
                }
            }
            let ghost sub = self.entries@.subrange(0, i + 1);
            let ghost sub0 = self.entries@.subrange(0, i as int);
            assert forall|x: i64| r@.contains(x) <==> has_layer(sub, x) by {
                if has_layer(sub, x) {
                    let j = choose|j: int| 0 <= j < sub.len() && #[trigger] sub[j].0 == x;
                    if j < i {
                        assert(sub0[j].0 == x);
                        assert(pre.contains(x));
                        let q = choose|q: int| 0 <= q < pre.len() && pre[q] == x;
                        if r@.len() != pre.len() {
                            if q < p {
                                assert(r@[q] == x);
                            } else {
                                assert(r@[q + 1] == x);
                            }
                        }
                    } else {
                        if r@.len() != pre.len() {
                            assert(r@[p as int] == x);
                        } else {
                            assert(r@[p as int] == x);
                        }
                    }
                }
                if r@.contains(x) {
                    let q = choose|q: int| 0 <= q < r@.len() && r@[q] == x;
                    if r@.len() != pre.len() && q == p {
                        assert(sub[i as int].0 == x);
                    } else {
                        let q0 = if r@.len() != pre.len() && q > p { q - 1 } else { q };
                        assert(pre[q0] == x);
                        assert(pre.contains(x));
                        let j = choose|j: int| 0 <= j < sub0.len() && #[trigger] sub0[j].0 == x;
                        assert(sub[j].0 == x);
                    }
                }
            }
            i += 1;
        }
        assert(self.entries@.subrange(0, i as int) =~= self.entries@);
        r
    }
}

} // verus!
