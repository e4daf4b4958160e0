use vstd::multiset::Multiset;
use vstd::prelude::*;

use crate::geometry::{box_ordered, boxes_meet, Aabb, Collider};
use rstar::primitives::{GeomWithData, Rectangle};
use rstar::{RTree, AABB};

verus! {

broadcast use vstd::seq_lib::group_to_multiset_ensures;

/// An r-tree of numbered boxes: each entry is a box with the position of its shape.
/// What it holds is read through `tree_entries`.
#[verifier::external_body]
pub struct BoxTree {
    tree: RTree<GeomWithData<Rectangle<[i64; 2]>, usize>>,
}

/// What a tree holds: for each entry, its number and its box.
pub uninterp spec fn tree_entries(t: BoxTree) -> Multiset<(usize, Aabb)>;

/// Relies on rstar::RTree::bulk_load: the tree holds exactly the entries given, here
/// the number `i` with box `boxes[i]` (each box has its least corner first, so
/// `AABB::from_corners` keeps it as it is).
#[verifier::external_body]
fn load_tree(boxes: Vec<Aabb>) -> (t: BoxTree)
    requires
        forall|i: int| 0 <= i < boxes@.len() ==> box_ordered(#[trigger] boxes@[i]),
    ensures
        tree_entries(t) == boxes@.map(|i: int, b: Aabb| (i as usize, b)).to_multiset(),
{
    BoxTree {
        tree: RTree::bulk_load(
            boxes.into_iter().enumerate().map(
                |(i, b)| GeomWithData::new(Rectangle::from_corners([b.0, b.1], [b.2, b.3]), i),
            ).collect(),
        ),
    }
}

/// Relies on rstar::RTree::locate_in_envelope_intersecting: it yields the entries whose
/// box meets the query box, borders included (`AABB::intersects` compares with `<=`).
#[verifier::external_body]
fn query_tree(t: &BoxTree, query: Aabb) -> (r: Vec<usize>)
    requires
        box_ordered(query),
    ensures
        forall|k: usize, b: Aabb|
            #[trigger] tree_entries(*t).contains((k, b)) && boxes_meet(b, query) ==> r@.contains(
                k,
            ),
        forall|j: int|
            #![trigger r@[j]]
            0 <= j < r@.len() ==> exists|b: Aabb|
                #[trigger] tree_entries(*t).contains((r@[j], b)) && boxes_meet(b, query),
{
    t.tree.locate_in_envelope_intersecting(
        &AABB::from_corners([query.0, query.1], [query.2, query.3]),
    ).map(|e| e.data).collect()
}

/// A static set of shapes, indexed for queries by box.
pub struct SpatialIndex {
    shapes: Vec<Collider>,
    tree: BoxTree,
}

impl View for SpatialIndex {
    type V = Seq<Collider>;

    closed spec fn view(&self) -> Seq<Collider> {
        self.shapes@
    }
}

impl SpatialIndex {
    /// The tree holds each shape's box under the shape's position.
    pub closed spec fn wf(&self) -> bool {
        tree_entries(self.tree) == self.shapes@.map(
            |i: int, c: Collider| (i as usize, c.spec_box()),
        ).to_multiset()
    }

    /// Builds the index over `shapes`, which it keeps in their order.
    pub fn bulk_load(shapes: Vec<Collider>) -> (r: SpatialIndex)
        ensures
            r.wf(),
            r@ == shapes@,
    {
        let mut boxes: Vec<Aabb> = Vec::new();
        let mut i: usize = 0;
        while i < shapes.len()
            invariant
                i <= shapes@.len(),
                boxes@ == shapes@.subrange(0, i as int).map_values(|c: Collider| c.spec_box()),
            decreases shapes@.len() - i,
        {
            boxes.push(shapes[i].to_aabb());
            i = i + 1;
            assert(boxes@ =~= shapes@.subrange(0, i as int).map_values(
                |c: Collider| c.spec_box(),
            ));
        }
        assert(shapes@.subrange(0, i as int) =~= shapes@);
        let tree = load_tree(boxes);
        assert(boxes@.map(|i: int, b: Aabb| (i as usize, b)) =~= shapes@.map(
            |i: int, c: Collider| (i as usize, c.spec_box()),
        ));
        SpatialIndex { shapes, tree }
    }

    /// The number of shapes.
    pub fn len(&self) -> (r: usize)
        ensures
            r == self@.len(),
    {
        self.shapes.len()
    }

    /// The shape at position `i`.
    pub fn get(&self, i: usize) -> (r: &Collider)
        requires
            i < self@.len(),
        ensures
            *r == self@[i as int],
    {
        &self.shapes[i]
    }

    /// The positions of the shapes whose bounding box meets `query`, borders included.
    pub fn candidates(&self, query: Aabb) -> (r: Vec<usize>)
        requires
            self.wf(),
            box_ordered(query),
        ensures
            forall|j: int| 0 <= j < r@.len() ==> r@[j] < self@.len(),
            forall|k: int|
                0 <= k < self@.len() ==> (boxes_meet(self@[k].spec_box(), query)
                    ==> r@.contains(k as usize)),
            forall|j: int|
                0 <= j < r@.len() ==> boxes_meet(#[trigger] self@[r@[j] as int].spec_box(), query),
    {
        let r = query_tree(&self.tree, query);
        let n = self.shapes.len();
        let ghost m = self.shapes@.map(|i: int, c: Collider| (i as usize, c.spec_box()));
        assert forall|k: int| 0 <= k < self@.len() && boxes_meet(self@[k].spec_box(), query) implies r@.contains(k as usize) by {
            assert(m[k] == (k as usize, self@[k].spec_box()));
            assert(m.contains(m[k]));
            assert(m.to_multiset().contains(m[k]));
        }
        assert forall|j: int| 0 <= j < r@.len() implies r@[j] < self@.len() && boxes_meet(#[trigger] self@[r@[j] as int].spec_box(), query) by {
            let b = choose|b: Aabb| #[trigger] tree_entries(self.tree).contains((r@[j], b)) && boxes_meet(b, query);
            assert(m.to_multiset().contains((r@[j], b)));
            assert(m.contains((r@[j], b)));
            let i = choose|i: int| 0 <= i < m.len() && m[i] == (r@[j], b);
            assert(m[i] == (i as usize, self@[i].spec_box()));
            assert(r@[j] as int == i);
            assert(b == self@[i].spec_box());
        }
        r
    }
}

} // verus!
