//! The binary-space-partition tree behind the BSP layout mode.
//!
//! Every inner node splits its rectangle along one axis at a ratio given in
//! thousandths; every leaf carries exactly one window. An empty layout is
//! represented by the absence of a tree (`Option<BspTree>` at the owner), so
//! a tree always holds at least one window.

use vstd::prelude::*;
use crate::geometry::Rect;
use crate::model::WindowId;

verus! {

pub enum BspTree {
    Leaf { id: WindowId, rect: Rect },
    Node { rect: Rect, ratio: i64, horizontal: bool, left: Box<BspTree>, right: Box<BspTree> },
}

/// The left/top child rectangle of a split.
pub open spec fn spec_split_left(r: Rect, ratio: int, horizontal: bool) -> Rect {
    if horizontal {
        Rect { x: r.x, y: r.y, width: (r.width * ratio / 1000) as i64, height: r.height }
    } else {
        Rect { x: r.x, y: r.y, width: r.width, height: (r.height * ratio / 1000) as i64 }
    }
}

/// The right/bottom child rectangle of a split.
pub open spec fn spec_split_right(r: Rect, ratio: int, horizontal: bool) -> Rect {
    if horizontal {
        Rect {
            x: (r.x + r.width * ratio / 1000) as i64,
            y: r.y,
            width: (r.width - r.width * ratio / 1000) as i64,
            height: r.height,
        }
    } else {
        Rect {
            x: r.x,
            y: (r.y + r.height * ratio / 1000) as i64,
            width: r.width,
            height: (r.height - r.height * ratio / 1000) as i64,
        }
    }
}

/// A valid ratio keeps both sides of a split non-empty in spirit: strictly
/// inside the unit.
pub open spec fn ratio_wf(ratio: int) -> bool {
    0 < ratio < 1000
}

/// The ratio a new inner node actually stores: the given one, clamped to
/// the tenth-to-nine-tenths band.
pub open spec fn spec_clamp_ratio(ratio: i64) -> i64 {
    if ratio < 100 {
        100
    } else if ratio > 900 {
        900
    } else {
        ratio
    }
}

/// Clamp a ratio into the band new inner nodes accept.
pub fn clamp_ratio(ratio: i64) -> (r: i64)
    ensures
        r == spec_clamp_ratio(ratio),
        100 <= r <= 900,
{
    if ratio < 100 {
        100
    } else if ratio > 900 {
        900
    } else {
        ratio
    }
}

/// The fraction a ratio takes of a non-negative length stays between zero
/// and the whole length.
pub proof fn lemma_ratio_part_bounds(len: int, ratio: int)
    requires
        0 <= len,
        ratio_wf(ratio),
    ensures
        0 <= len * ratio / 1000 <= len,
{
    vstd::arithmetic::mul::lemma_mul_nonnegative(len, ratio);
    vstd::arithmetic::div_mod::lemma_div_pos_is_pos(len * ratio, 1000);
    vstd::arithmetic::mul::lemma_mul_inequality(ratio, 1000, len);
    vstd::arithmetic::mul::lemma_mul_is_commutative(ratio, len);
    vstd::arithmetic::mul::lemma_mul_is_commutative(1000, len);
    vstd::arithmetic::div_mod::lemma_div_is_ordered(len * ratio, 1000 * len, 1000);
    vstd::arithmetic::div_mod::lemma_div_multiples_vanish(len, 1000);
}

/// The two halves of a split carve the parent into two well-formed
/// rectangles that partition it exactly.
pub proof fn lemma_split_partition(r: Rect, ratio: int, horizontal: bool)
    requires
        r.wf(),
        ratio_wf(ratio),
    ensures
        spec_split_left(r, ratio, horizontal).wf(),
        spec_split_right(r, ratio, horizontal).wf(),
        forall|px: int, py: int|
            r.has_point(px, py) <==> (spec_split_left(r, ratio, horizontal).has_point(px, py)
                || spec_split_right(r, ratio, horizontal).has_point(px, py)),
        spec_split_left(r, ratio, horizontal).disjoint(spec_split_right(r, ratio, horizontal)),
{
    if horizontal {
        lemma_ratio_part_bounds(r.width as int, ratio);
    } else {
        lemma_ratio_part_bounds(r.height as int, ratio);
    }
}

impl BspTree {
    /// The windows at the leaves, left to right, with the rectangle each one
    /// currently holds.
    pub open spec fn leaves(self) -> Seq<(WindowId, Rect)>
        decreases self,
    {
        match self {
            BspTree::Leaf { id, rect } => seq![(id, rect)],
            BspTree::Node { left, right, .. } => left.leaves() + right.leaves(),
        }
    }

    /// The window identifiers at the leaves, left to right.
    pub open spec fn leaf_ids(self) -> Seq<WindowId> {
        self.leaves().map_values(|p: (WindowId, Rect)| p.0)
    }

    /// The set of windows in the tree.
    pub open spec fn id_set(self) -> Set<WindowId> {
        self.leaf_ids().to_set()
    }

    pub open spec fn count(self) -> nat {
        self.leaves().len()
    }

    /// Whether the identifier occurs at some leaf.
    pub open spec fn spec_contains(self, id: WindowId) -> bool
        decreases self,
    {
        match self {
            BspTree::Leaf { id: leaf_id, .. } => leaf_id == id,
            BspTree::Node { left, right, .. } => left.spec_contains(id) || right.spec_contains(id),
        }
    }

    /// Structural well-formedness: every inner node has a valid ratio.
    pub open spec fn wf(self) -> bool
        decreases self,
    {
        match self {
            BspTree::Leaf { .. } => true,
            BspTree::Node { ratio, left, right, .. } => {
                ratio_wf(ratio as int) && left.wf() && right.wf()
            },
        }
    }

    /// No window occurs at two leaves.
    pub open spec fn distinct(self) -> bool {
        forall|i: int, j: int|
            0 <= i < j < self.leaf_ids().len() ==> self.leaf_ids()[i] != self.leaf_ids()[j]
    }

    /// Every leaf and node rectangle is well formed.
    pub open spec fn rects_wf(self) -> bool
        decreases self,
    {
        match self {
            BspTree::Leaf { rect, .. } => rect.wf(),
            BspTree::Node { rect, left, right, .. } => rect.wf() && left.rects_wf()
                && right.rects_wf(),
        }
    }

    /// The rectangles in the tree tile `r` exactly: the root owns `r`, and
    /// every inner node hands its two children the two halves of its own
    /// rectangle.
    pub open spec fn tiles(self, r: Rect) -> bool
        decreases self,
    {
        match self {
            BspTree::Leaf { rect, .. } => rect == r,
            BspTree::Node { rect, ratio, horizontal, left, right } => {
                &&& rect == r
                &&& left.tiles(spec_split_left(r, ratio as int, horizontal))
                &&& right.tiles(spec_split_right(r, ratio as int, horizontal))
            },
        }
    }

    pub fn new_leaf(id: WindowId, rect: Rect) -> (t: BspTree)
        ensures
            t == (BspTree::Leaf { id, rect }),
            t.leaves() == seq![(id, rect)],
    {
        let t = BspTree::Leaf { id, rect };
        proof {
            assert(t.leaves() =~= seq![(id, rect)]);
        }
        t
    }

    /// What `insert` builds: descend to the rightmost leaf; an occupied leaf
    /// becomes an inner node with the old window on the left/top and the new
    /// one on the right/bottom, its ratio clamped to the tenth-to-nine-tenths
    /// band. `even_depth` says whether the leaf sits at an even depth, where
    /// the split is horizontal; it flips at every level.
    pub open spec fn spec_insert(self, id: WindowId, ratio: i64, even_depth: bool) -> BspTree
        decreases self,
    {
        match self {
            BspTree::Leaf { id: leaf_id, rect } => BspTree::Node {
                rect,
                ratio: spec_clamp_ratio(ratio),
                horizontal: even_depth,
                left: Box::new(BspTree::Leaf { id: leaf_id, rect }),
                right: Box::new(BspTree::Leaf { id, rect }),
            },
            BspTree::Node { rect, ratio: r0, horizontal, left, right } => BspTree::Node {
                rect,
                ratio: r0,
                horizontal,
                left,
                right: Box::new(right.spec_insert(id, ratio, !even_depth)),
            },
        }
    }

    /// Insertion appends the new window after every existing one.
    pub proof fn lemma_insert_leaves(self, id: WindowId, ratio: i64, even_depth: bool)
        ensures
            self.spec_insert(id, ratio, even_depth).leaf_ids() == self.leaf_ids().push(id),
            self.spec_insert(id, ratio, even_depth).count() == self.count() + 1,
        decreases self,
    {
        let t = self.spec_insert(id, ratio, even_depth);
        match self {
            BspTree::Leaf { id: leaf_id, rect } => {
                let old_leaf = BspTree::Leaf { id: leaf_id, rect };
                let new_leaf = BspTree::Leaf { id, rect };
                assert(old_leaf.leaves() =~= seq![(leaf_id, rect)]);
                assert(new_leaf.leaves() =~= seq![(id, rect)]);
                assert(t.leaves() =~= old_leaf.leaves() + new_leaf.leaves());
                assert(t.leaves() =~= self.leaves().push((id, rect)));
                assert(t.leaf_ids() =~= self.leaf_ids().push(id));
            },
            BspTree::Node { rect, ratio: r0, horizontal, left, right } => {
                right.lemma_insert_leaves(id, ratio, !even_depth);
                let ri = right.spec_insert(id, ratio, !even_depth);
                assert(t.leaves() == left.leaves() + ri.leaves());
                assert(t.leaf_ids() =~= left.leaf_ids() + ri.leaf_ids());
                assert(self.leaf_ids() =~= left.leaf_ids() + right.leaf_ids());
                assert(t.leaf_ids() =~= self.leaf_ids().push(id));
            },
        }
    }

    /// Insertion preserves well-formedness and membership: the clamped ratio
    /// of the new node is always valid.
    pub proof fn lemma_insert_wf(self, id: WindowId, ratio: i64, even_depth: bool)
        requires
            self.wf(),
        ensures
            self.spec_insert(id, ratio, even_depth).wf(),
            forall|x: WindowId|
                self.spec_insert(id, ratio, even_depth).spec_contains(x) <==> (self.spec_contains(
                    x,
                ) || x == id),
        decreases self,
    {
        let t = self.spec_insert(id, ratio, even_depth);
        match self {
            BspTree::Leaf { id: leaf_id, rect } => {
                let old_leaf = BspTree::Leaf { id: leaf_id, rect };
                let new_leaf = BspTree::Leaf { id, rect };
                assert(old_leaf.wf());
                assert(new_leaf.wf());
                assert(t.wf());
                assert forall|x: WindowId|
                    t.spec_contains(x) <==> (self.spec_contains(x) || x == id) by {
                    assert(t.spec_contains(x) == (old_leaf.spec_contains(x)
                        || new_leaf.spec_contains(x)));
                    assert(old_leaf.spec_contains(x) == (x == leaf_id));
                    assert(new_leaf.spec_contains(x) == (x == id));
                    assert(self.spec_contains(x) == (x == leaf_id));
                }
            },
            BspTree::Node { left, right, .. } => {
                right.lemma_insert_wf(id, ratio, !even_depth);
                let ri = right.spec_insert(id, ratio, !even_depth);
                assert(t.wf());
                assert forall|x: WindowId|
                    t.spec_contains(x) <==> (self.spec_contains(x) || x == id) by {
                    assert(t.spec_contains(x) == (left.spec_contains(x) || ri.spec_contains(x)));
                    assert(self.spec_contains(x) == (left.spec_contains(x) || right.spec_contains(
                        x,
                    )));
                }
            },
        }
    }

    /// Insert a window at the rightmost leaf. Child rectangles are left as
    /// they are; the caller re-assigns rectangles before collecting them.
    pub fn insert_at_depth(self, id: WindowId, ratio: i64, even_depth: bool) -> (t: BspTree)
        ensures
            t == self.spec_insert(id, ratio, even_depth),
        decreases self,
    {
        match self {
            BspTree::Leaf { id: leaf_id, rect } => {
                BspTree::Node {
                    rect,
                    ratio: clamp_ratio(ratio),
                    horizontal: even_depth,
                    left: Box::new(BspTree::Leaf { id: leaf_id, rect }),
                    right: Box::new(BspTree::Leaf { id, rect }),
                }
            },
            BspTree::Node { rect, ratio: r0, horizontal, left, right } => {
                let new_right = Box::new((*right).insert_at_depth(id, ratio, !even_depth));
                BspTree::Node { rect, ratio: r0, horizontal, left, right: new_right }
            },
        }
    }

    /// Insert a window, starting the axis alternation at the root: the root
    /// sits at even depth and splits horizontally.
    pub fn insert(self, id: WindowId, ratio: i64) -> (t: BspTree)
        ensures
            t == self.spec_insert(id, ratio, true),
    {
        self.insert_at_depth(id, ratio, true)
    }

    pub fn contains(&self, id: WindowId) -> (b: bool)
        ensures
            b == self.spec_contains(id),
        decreases self,
    {
        match self {
            BspTree::Leaf { id: leaf_id, .. } => *leaf_id == id,
            BspTree::Node { left, right, .. } => left.contains(id) || right.contains(id),
        }
    }

    /// A tree always carries at least one window.
    pub proof fn lemma_count_pos(self)
        ensures
            self.count() >= 1,
        decreases self,
    {
        match self {
            BspTree::Leaf { id, rect } => {
                assert(self.leaves() =~= seq![(id, rect)]);
            },
            BspTree::Node { left, right, .. } => {
                left.lemma_count_pos();
                right.lemma_count_pos();
                assert(self.leaves() =~= left.leaves() + right.leaves());
            },
        }
    }

    /// Membership agrees with the leaf sequence.
    pub proof fn lemma_contains_leaf_ids(self, id: WindowId)
        ensures
            self.spec_contains(id) <==> self.leaf_ids().contains(id),
        decreases self,
    {
        match self {
            BspTree::Leaf { id: leaf_id, rect } => {
                assert(self.leaves() =~= seq![(leaf_id, rect)]);
                assert(self.leaf_ids() =~= seq![leaf_id]);
                assert(self.leaf_ids()[0] == leaf_id);
            },
            BspTree::Node { left, right, .. } => {
                left.lemma_contains_leaf_ids(id);
                right.lemma_contains_leaf_ids(id);
                assert(self.leaf_ids() =~= left.leaf_ids() + right.leaf_ids());
                if left.leaf_ids().contains(id) {
                    let i = choose|i: int|
                        0 <= i < left.leaf_ids().len() && left.leaf_ids()[i] == id;
                    assert(self.leaf_ids()[i] == id);
                }
                if right.leaf_ids().contains(id) {
                    let i = choose|i: int|
                        0 <= i < right.leaf_ids().len() && right.leaf_ids()[i] == id;
                    assert(self.leaf_ids()[i + left.leaf_ids().len()] == id);
                }
                if self.leaf_ids().contains(id) {
                    let i = choose|i: int|
                        0 <= i < self.leaf_ids().len() && self.leaf_ids()[i] == id;
                    if i < left.leaf_ids().len() {
                        assert(left.leaf_ids()[i] == id);
                    } else {
                        assert(right.leaf_ids()[i - left.leaf_ids().len()] == id);
                    }
                }
            },
        }
    }

    /// What `remove` leaves behind: the leaf carrying the window disappears
    /// and its parent collapses into the sibling; removing the only window
    /// empties the tree.
    pub open spec fn spec_remove(self, id: WindowId) -> Option<BspTree>
        decreases self,
    {
        match self {
            BspTree::Leaf { id: leaf_id, .. } => if leaf_id == id {
                None
            } else {
                Some(self)
            },
            BspTree::Node { rect, ratio, horizontal, left, right } => {
                if left.spec_contains(id) {
                    match left.spec_remove(id) {
                        None => Some(*right),
                        Some(l) => Some(
                            BspTree::Node { rect, ratio, horizontal, left: Box::new(l), right },
                        ),
                    }
                } else if right.spec_contains(id) {
                    match right.spec_remove(id) {
                        None => Some(*left),
                        Some(rr) => Some(
                            BspTree::Node { rect, ratio, horizontal, left, right: Box::new(rr) },
                        ),
                    }
                } else {
                    Some(self)
                }
            },
        }
    }

    /// Remove a window; the surviving sibling of the removed leaf is
    /// promoted, keeping its own rectangles until the next re-assignment.
    pub fn remove(self, id: WindowId) -> (t: Option<BspTree>)
        ensures
            t == self.spec_remove(id),
        decreases self,
    {
        match self {
            BspTree::Leaf { id: leaf_id, rect } => if leaf_id == id {
                None
            } else {
                Some(BspTree::Leaf { id: leaf_id, rect })
            },
            BspTree::Node { rect, ratio, horizontal, left, right } => {
                if left.contains(id) {
                    match (*left).remove(id) {
                        None => Some(*right),
                        Some(l) => Some(
                            BspTree::Node { rect, ratio, horizontal, left: Box::new(l), right },
                        ),
                    }
                } else if right.contains(id) {
                    match (*right).remove(id) {
                        None => Some(*left),
                        Some(rr) => Some(
                            BspTree::Node { rect, ratio, horizontal, left, right: Box::new(rr) },
                        ),
                    }
                } else {
                    Some(BspTree::Node { rect, ratio, horizontal, left, right })
                }
            },
        }
    }

    /// A tree with no shared windows between siblings at any node.
    pub open spec fn spec_distinct(self) -> bool
        decreases self,
    {
        match self {
            BspTree::Leaf { .. } => true,
            BspTree::Node { left, right, .. } => {
                &&& left.spec_distinct()
                &&& right.spec_distinct()
                &&& forall|x: WindowId| !(left.spec_contains(x) && right.spec_contains(x))
            },
        }
    }

    /// Insertion adds exactly the one membership.
    pub proof fn lemma_insert_contains(self, id: WindowId, ratio: i64, even_depth: bool)
        ensures
            forall|x: WindowId|
                #![trigger self.spec_insert(id, ratio, even_depth).spec_contains(x)]
                self.spec_insert(id, ratio, even_depth).spec_contains(x) <==> (self.spec_contains(
                    x,
                ) || x == id),
        decreases self,
    {
        let t = self.spec_insert(id, ratio, even_depth);
        match self {
            BspTree::Leaf { id: leaf_id, rect } => {
                let old_leaf = BspTree::Leaf { id: leaf_id, rect };
                let new_leaf = BspTree::Leaf { id, rect };
                assert forall|x: WindowId|
                    t.spec_contains(x) <==> (self.spec_contains(x) || x == id) by {
                    assert(t.spec_contains(x) == (old_leaf.spec_contains(x)
                        || new_leaf.spec_contains(x)));
                    assert(old_leaf.spec_contains(x) == (x == leaf_id));
                    assert(new_leaf.spec_contains(x) == (x == id));
                    assert(self.spec_contains(x) == (x == leaf_id));
                }
            },
            BspTree::Node { left, right, .. } => {
                right.lemma_insert_contains(id, ratio, !even_depth);
                let ri = right.spec_insert(id, ratio, !even_depth);
                assert forall|x: WindowId|
                    t.spec_contains(x) <==> (self.spec_contains(x) || x == id) by {
                    assert(t.spec_contains(x) == (left.spec_contains(x) || ri.spec_contains(x)));
                    assert(self.spec_contains(x) == (left.spec_contains(x) || right.spec_contains(
                        x,
                    )));
                }
            },
        }
    }

    /// Inserting a fresh window keeps the tree free of duplicates.
    pub proof fn lemma_insert_distinct(self, id: WindowId, ratio: i64, even_depth: bool)
        requires
            self.spec_distinct(),
            !self.spec_contains(id),
        ensures
            self.spec_insert(id, ratio, even_depth).spec_distinct(),
        decreases self,
    {
        let t = self.spec_insert(id, ratio, even_depth);
        match self {
            BspTree::Leaf { id: leaf_id, rect } => {
                let old_leaf = BspTree::Leaf { id: leaf_id, rect };
                let new_leaf = BspTree::Leaf { id, rect };
                assert(old_leaf.spec_distinct());
                assert(new_leaf.spec_distinct());
                assert forall|x: WindowId|
                    !(old_leaf.spec_contains(x) && new_leaf.spec_contains(x)) by {
                    assert(old_leaf.spec_contains(x) == (x == leaf_id));
                    assert(new_leaf.spec_contains(x) == (x == id));
                    assert(self.spec_contains(x) == (x == leaf_id));
                }
                assert(t.spec_distinct());
            },
            BspTree::Node { left, right, .. } => {
                right.lemma_insert_distinct(id, ratio, !even_depth);
                right.lemma_insert_contains(id, ratio, !even_depth);
                let ri = right.spec_insert(id, ratio, !even_depth);
                assert(forall|y: WindowId|
                    #[trigger] ri.spec_contains(y) <==> (right.spec_contains(y) || y == id));
                assert forall|x: WindowId|
                    !(left.spec_contains(x) && ri.spec_contains(x)) by {
                    assert(ri.spec_contains(x) == (right.spec_contains(x) || x == id));
                }
                assert(t.spec_distinct());
            },
        }
    }

    /// Removal: the window is gone, nothing else is, and the tree stays free
    /// of duplicates. Removing from a one-window tree empties it.
    pub proof fn lemma_remove_props(self, id: WindowId)
        requires
            self.wf(),
            self.spec_distinct(),
        ensures
            match self.spec_remove(id) {
                None => self.leaf_ids() == seq![id],
                Some(t) => {
                    &&& t.wf()
                    &&& t.spec_distinct()
                    &&& forall|x: WindowId| t.spec_contains(x) <==> (self.spec_contains(x) && x != id)
                    &&& t.count() == if self.spec_contains(id) {
                        (self.count() - 1) as nat
                    } else {
                        self.count()
                    }
                },
            },
        decreases self,
    {
        match self {
            BspTree::Leaf { id: leaf_id, rect } => {
                if leaf_id == id {
                    assert(self.leaves() =~= seq![(id, rect)]);
                    assert(self.leaf_ids() =~= seq![id]);
                } else {
                    assert(!self.spec_contains(id));
                    assert forall|x: WindowId|
                        self.spec_contains(x) <==> (self.spec_contains(x) && x != id) by {
                        assert(self.spec_contains(x) == (x == leaf_id));
                    }
                }
            },
            BspTree::Node { rect, ratio, horizontal, left, right } => {
                assert(self.leaves() =~= left.leaves() + right.leaves());
                assert(self.count() == left.count() + right.count());
                if left.spec_contains(id) {
                    left.lemma_remove_props(id);
                    left.lemma_count_pos();
                    right.lemma_count_pos();
                    // Because siblings share nothing, the right side is free of `id`.
                    assert(!right.spec_contains(id));
                    match left.spec_remove(id) {
                        None => {
                            // The left child held exactly this one window.
                            assert(left.leaf_ids().len() == 1);
                            assert(left.count() == 1);
                            assert forall|x: WindowId|
                                right.spec_contains(x) <==> (self.spec_contains(x) && x != id) by {
                                left.lemma_contains_leaf_ids(x);
                                assert(left.leaf_ids() =~= seq![id]);
                            }
                            assert(self.spec_contains(id));
                            assert(right.count() == (self.count() - 1) as nat);
                        },
                        Some(l) => {
                            let t = BspTree::Node {
                                rect,
                                ratio,
                                horizontal,
                                left: Box::new(l),
                                right,
                            };
                            assert(t.leaves() =~= l.leaves() + right.leaves());
                            assert(t.count() == l.count() + right.count());
                            assert forall|x: WindowId|
                                t.spec_contains(x) <==> (self.spec_contains(x) && x != id) by {
                                assert(t.spec_contains(x) == (l.spec_contains(x)
                                    || right.spec_contains(x)));
                            }
                            assert forall|x: WindowId|
                                !(l.spec_contains(x) && right.spec_contains(x)) by {}
                            assert(t.spec_distinct());
                            assert(self.spec_contains(id));
                            assert(t.count() == (self.count() - 1) as nat);
                        },
                    }
                } else if right.spec_contains(id) {
                    right.lemma_remove_props(id);
                    left.lemma_count_pos();
                    right.lemma_count_pos();
                    match right.spec_remove(id) {
                        None => {
                            assert(right.leaf_ids().len() == 1);
                            assert(right.count() == 1);
                            assert forall|x: WindowId|
                                left.spec_contains(x) <==> (self.spec_contains(x) && x != id) by {
                                right.lemma_contains_leaf_ids(x);
                                assert(right.leaf_ids() =~= seq![id]);
                            }
                            assert(self.spec_contains(id));
                            assert(left.count() == (self.count() - 1) as nat);
                        },
                        Some(rr) => {
                            let t = BspTree::Node {
                                rect,
                                ratio,
                                horizontal,
                                left,
                                right: Box::new(rr),
                            };
                            assert(t.leaves() =~= left.leaves() + rr.leaves());
                            assert(t.count() == left.count() + rr.count());
                            assert forall|x: WindowId|
                                t.spec_contains(x) <==> (self.spec_contains(x) && x != id) by {
                                assert(t.spec_contains(x) == (left.spec_contains(x)
                                    || rr.spec_contains(x)));
                            }
                            assert forall|x: WindowId|
                                !(left.spec_contains(x) && rr.spec_contains(x)) by {}
                            assert(t.spec_distinct());
                            assert(self.spec_contains(id));
                            assert(t.count() == (self.count() - 1) as nat);
                        },
                    }
                } else {
                    assert(!self.spec_contains(id));
                    assert forall|x: WindowId|
                        self.spec_contains(x) <==> (self.spec_contains(x) && x != id) by {
                        if x == id {
                            assert(!self.spec_contains(x));
                        }
                    }
                }
            },
        }
    }

    /// What re-assigning rectangles builds: the root takes the new rectangle
    /// and every inner node splits its own between its children.
    pub open spec fn spec_assign(self, r: Rect) -> BspTree
        decreases self,
    {
        match self {
            BspTree::Leaf { id, .. } => BspTree::Leaf { id, rect: r },
            BspTree::Node { ratio, horizontal, left, right, .. } => BspTree::Node {
                rect: r,
                ratio,
                horizontal,
                left: Box::new(left.spec_assign(spec_split_left(r, ratio as int, horizontal))),
                right: Box::new(right.spec_assign(spec_split_right(r, ratio as int, horizontal))),
            },
        }
    }

    /// Re-assign rectangles from the root down.
    pub fn assign_rects(self, r: Rect) -> (t: BspTree)
        requires
            self.wf(),
            r.wf(),
        ensures
            t == self.spec_assign(r),
        decreases self,
    {
        match self {
            BspTree::Leaf { id, .. } => BspTree::Leaf { id, rect: r },
            BspTree::Node { ratio, horizontal, left, right, .. } => {
                proof {
                    lemma_split_partition(r, ratio as int, horizontal);
                }
                let left_rect: Rect;
                let right_rect: Rect;
                if horizontal {
                    let part = ratio_part(r.width, ratio);
                    left_rect = Rect { x: r.x, y: r.y, width: part, height: r.height };
                    right_rect = Rect {
                        x: r.x + part,
                        y: r.y,
                        width: r.width - part,
                        height: r.height,
                    };
                } else {
                    let part = ratio_part(r.height, ratio);
                    left_rect = Rect { x: r.x, y: r.y, width: r.width, height: part };
                    right_rect = Rect {
                        x: r.x,
                        y: r.y + part,
                        width: r.width,
                        height: r.height - part,
                    };
                }
                let new_left = Box::new((*left).assign_rects(left_rect));
                let new_right = Box::new((*right).assign_rects(right_rect));
                BspTree::Node { rect: r, ratio, horizontal, left: new_left, right: new_right }
            },
        }
    }

    /// Re-assignment gives the tree the tiling property and touches nothing
    /// but the rectangles.
    pub proof fn lemma_assign_props(self, r: Rect)
        requires
            self.wf(),
            r.wf(),
        ensures
            self.spec_assign(r).tiles(r),
            self.spec_assign(r).wf(),
            self.spec_assign(r).rects_wf(),
            self.spec_assign(r).leaf_ids() == self.leaf_ids(),
            forall|x: WindowId|
                self.spec_assign(r).spec_contains(x) == self.spec_contains(x),
            self.spec_distinct() ==> self.spec_assign(r).spec_distinct(),
        decreases self,
    {
        match self {
            BspTree::Leaf { id, rect } => {
                let t = self.spec_assign(r);
                assert(t.leaves() =~= seq![(id, r)]);
                assert(self.leaves() =~= seq![(id, rect)]);
                assert(t.leaf_ids() =~= self.leaf_ids());
                assert forall|x: WindowId|
                    t.spec_contains(x) == self.spec_contains(x) by {
                    assert(t.spec_contains(x) == (x == id));
                    assert(self.spec_contains(x) == (x == id));
                }
            },
            BspTree::Node { ratio, horizontal, left, right, .. } => {
                lemma_split_partition(r, ratio as int, horizontal);
                let a = spec_split_left(r, ratio as int, horizontal);
                let b = spec_split_right(r, ratio as int, horizontal);
                left.lemma_assign_props(a);
                right.lemma_assign_props(b);
                let t = self.spec_assign(r);
                let tl = left.spec_assign(a);
                let tr = right.spec_assign(b);
                assert(t.leaves() =~= tl.leaves() + tr.leaves());
                assert(self.leaves() =~= left.leaves() + right.leaves());
                assert(t.leaf_ids() =~= tl.leaf_ids() + tr.leaf_ids());
                assert(self.leaf_ids() =~= left.leaf_ids() + right.leaf_ids());
                assert(t.leaf_ids() =~= self.leaf_ids());
                assert forall|x: WindowId|
                    t.spec_contains(x) == self.spec_contains(x) by {
                    assert(t.spec_contains(x) == (tl.spec_contains(x) || tr.spec_contains(x)));
                    assert(self.spec_contains(x) == (left.spec_contains(x) || right.spec_contains(
                        x,
                    )));
                }
                if self.spec_distinct() {
                    assert forall|x: WindowId|
                        !(tl.spec_contains(x) && tr.spec_contains(x)) by {
                        assert(tl.spec_contains(x) == left.spec_contains(x));
                        assert(tr.spec_contains(x) == right.spec_contains(x));
                    }
                }
            },
        }
    }
    /// The leaf rectangles of a tiling tree partition the root rectangle:
    /// they are disjoint, inside it, and every point of it lies in one.
    pub proof fn lemma_tiles_partition(self, r: Rect)
        requires
            self.wf(),
            r.wf(),
            self.tiles(r),
        ensures
            forall|px: int, py: int| r.has_point(px, py) <==> covered(self.leaves(), px, py),
            tiles_disjoint(self.leaves()),
            forall|i: int|
                0 <= i < self.leaves().len() ==> (#[trigger] self.leaves()[i]).1.wf()
                    && self.leaves()[i].1.inside(r),
        decreases self,
    {
        match self {
            BspTree::Leaf { id, rect } => {
                assert(self.leaves() =~= seq![(id, rect)]);
                assert forall|px: int, py: int|
                    r.has_point(px, py) <==> covered(self.leaves(), px, py) by {
                    if r.has_point(px, py) {
                        assert(self.leaves()[0].1.has_point(px, py));
                    }
                }
            },
            BspTree::Node { rect, ratio, horizontal, left, right } => {
                lemma_split_partition(r, ratio as int, horizontal);
                let a = spec_split_left(r, ratio as int, horizontal);
                let b = spec_split_right(r, ratio as int, horizontal);
                left.lemma_tiles_partition(a);
                right.lemma_tiles_partition(b);
                let ls = left.leaves();
                let rs = right.leaves();
                let all = self.leaves();
                assert(all =~= ls + rs);
                assert forall|px: int, py: int|
                    r.has_point(px, py) <==> covered(all, px, py) by {
                    if r.has_point(px, py) {
                        if a.has_point(px, py) {
                            let i = choose|i: int|
                                0 <= i < ls.len() && ls[i].1.has_point(px, py);
                            assert(all[i].1.has_point(px, py));
                        } else {
                            assert(b.has_point(px, py));
                            let i = choose|i: int|
                                0 <= i < rs.len() && rs[i].1.has_point(px, py);
                            assert(all[ls.len() + i].1.has_point(px, py));
                        }
                    }
                    if covered(all, px, py) {
                        let i = choose|i: int| 0 <= i < all.len() && all[i].1.has_point(px, py);
                        if i < ls.len() {
                            assert(ls[i].1.has_point(px, py));
                            assert(covered(ls, px, py));
                        } else {
                            assert(rs[i - ls.len()].1.has_point(px, py));
                            assert(covered(rs, px, py));
                        }
                    }
                }
                assert forall|i: int, j: int|
                    0 <= i < j < all.len() implies all[i].1.disjoint(all[j].1) by {
                    if j < ls.len() {
                        assert(all[i].1 == ls[i].1);
                        assert(all[j].1 == ls[j].1);
                    } else if i >= ls.len() {
                        assert(all[i].1 == rs[i - ls.len()].1);
                        assert(all[j].1 == rs[j - ls.len()].1);
                    } else {
                        let ri = all[i].1;
                        let rj = all[j].1;
                        assert(ri == ls[i].1);
                        assert(rj == rs[j - ls.len()].1);
                        assert(ri.inside(a));
                        assert(rj.inside(b));
                        assert forall|px: int, py: int|
                            !(ri.has_point(px, py) && rj.has_point(px, py)) by {
                            if ri.has_point(px, py) && rj.has_point(px, py) {
                                assert(a.has_point(px, py));
                                assert(b.has_point(px, py));
                            }
                        }
                    }
                }
                assert forall|i: int|
                    0 <= i < all.len() implies (#[trigger] all[i]).1.wf() && all[i].1.inside(
                    r,
                ) by {
                    if i < ls.len() {
                        assert(all[i].1 == ls[i].1);
                        assert(ls[i].1.inside(a));
                        assert forall|px: int, py: int|
                            all[i].1.has_point(px, py) implies r.has_point(px, py) by {
                            assert(a.has_point(px, py));
                        }
                    } else {
                        assert(all[i].1 == rs[i - ls.len()].1);
                        assert(rs[i - ls.len()].1.inside(b));
                        assert forall|px: int, py: int|
                            all[i].1.has_point(px, py) implies r.has_point(px, py) by {
                            assert(b.has_point(px, py));
                        }
                    }
                }
            },
        }
    }

    /// The tiles the layout hands out: each leaf's rectangle, inset by half
    /// the gap on every side.
    pub open spec fn spec_tiles(self, gap: int) -> Seq<(WindowId, Rect)> {
        self.leaves().map_values(|p: (WindowId, Rect)| (p.0, p.1.spec_inset(gap)))
    }

    /// Append each leaf's inset tile to `out`, left to right.
    fn collect_into(&self, gap: i64, out: &mut Vec<(WindowId, Rect)>)
        requires
            self.rects_wf(),
            0 <= gap <= crate::geometry::COORD_LIMIT,
        ensures
            final(out)@ == old(out)@ + self.spec_tiles(gap as int),
        decreases self,
    {
        match self {
            BspTree::Leaf { id, rect } => {
                let tile = rect.inset(gap);
                out.push((*id, tile));
                proof {
                    assert(self.leaves() =~= seq![(*id, *rect)]);
                    assert(out@ =~= old(out)@ + self.spec_tiles(gap as int));
                }
            },
            BspTree::Node { left, right, .. } => {
                left.collect_into(gap, out);
                right.collect_into(gap, out);
                proof {
                    assert(self.leaves() =~= left.leaves() + right.leaves());
                    assert(self.spec_tiles(gap as int) =~= left.spec_tiles(gap as int)
                        + right.spec_tiles(gap as int));
                    assert(out@ =~= old(out)@ + self.spec_tiles(gap as int));
                }
            },
        }
    }

    /// Append the leaf identifiers to `out`, left to right.
    fn collect_ids_into(&self, out: &mut Vec<WindowId>)
        ensures
            final(out)@ == old(out)@ + self.leaf_ids(),
        decreases self,
    {
        match self {
            BspTree::Leaf { id, rect } => {
                out.push(*id);
                proof {
                    assert(self.leaves() =~= seq![(*id, *rect)]);
                    assert(out@ =~= old(out)@ + self.leaf_ids());
                }
            },
            BspTree::Node { left, right, .. } => {
                left.collect_ids_into(out);
                right.collect_ids_into(out);
                proof {
                    assert(self.leaves() =~= left.leaves() + right.leaves());
                    assert(self.leaf_ids() =~= left.leaf_ids() + right.leaf_ids());
                    assert(out@ =~= old(out)@ + self.leaf_ids());
                }
            },
        }
    }

    /// The window identifiers in the tree, left to right.
    pub fn collect_ids(&self) -> (v: Vec<WindowId>)
        ensures
            v@ == self.leaf_ids(),
    {
        let mut out: Vec<WindowId> = Vec::new();
        self.collect_ids_into(&mut out);
        proof {
            assert(out@ =~= self.leaf_ids());
        }
        out
    }

    /// Collect the window tiles of the tree, inset by half the gap.
    pub fn collect_rects(&self, gap: i64) -> (r: Vec<(WindowId, Rect)>)
        requires
            self.rects_wf(),
            0 <= gap <= crate::geometry::COORD_LIMIT,
        ensures
            r@ == self.spec_tiles(gap as int),
    {
        let mut out: Vec<(WindowId, Rect)> = Vec::new();
        self.collect_into(gap, &mut out);
        proof {
            assert(out@ =~= self.spec_tiles(gap as int));
        }
        out
    }
}

/// Law: for a tree tiling a screen rectangle, the collected tiles are
/// pairwise non-overlapping, each lies inside the screen, and — grown back by
/// the half-gap they were inset by — they cover the screen exactly.
pub proof fn lemma_bsp_tiling(t: BspTree, r: Rect, gap: int)
    requires
        t.wf(),
        r.wf(),
        t.tiles(r),
        0 <= gap <= crate::geometry::COORD_LIMIT,
        gap % 2 == 0,
    ensures
        tiles_disjoint(t.spec_tiles(gap)),
        forall|i: int|
            0 <= i < t.spec_tiles(gap).len() ==> (#[trigger] t.spec_tiles(gap)[i]).1.inside(r),
        forall|px: int, py: int|
            r.has_point(px, py) <==> exists|i: int|
                0 <= i < t.spec_tiles(gap).len() && (#[trigger] t.spec_tiles(
                    gap,
                )[i]).1.spec_grow(gap).has_point(px, py),
{
    t.lemma_tiles_partition(r);
    let leaves = t.leaves();
    let tiles = t.spec_tiles(gap);
    assert(tiles.len() == leaves.len());
    assert forall|i: int| 0 <= i < tiles.len() implies (#[trigger] tiles[i]).1.spec_grow(gap)
        == leaves[i].1 && tiles[i].1 == leaves[i].1.spec_inset(gap) by {
        leaves[i].1.lemma_grow_inverts_inset(gap);
    }
    // An inset tile stays inside its leaf rectangle.
    assert forall|i: int| 0 <= i < tiles.len() implies (#[trigger] tiles[i]).1.inside(
        leaves[i].1,
    ) by {
        let lr = leaves[i].1;
        assert forall|px: int, py: int|
            tiles[i].1.has_point(px, py) implies lr.has_point(px, py) by {
            assert(0 <= gap / 2 <= gap);
        }
    }
    assert forall|i: int, j: int|
        0 <= i < j < tiles.len() implies tiles[i].1.disjoint(tiles[j].1) by {
        assert(leaves[i].1.disjoint(leaves[j].1));
        assert forall|px: int, py: int|
            !(tiles[i].1.has_point(px, py) && tiles[j].1.has_point(px, py)) by {
            if tiles[i].1.has_point(px, py) && tiles[j].1.has_point(px, py) {
                assert(leaves[i].1.has_point(px, py));
                assert(leaves[j].1.has_point(px, py));
            }
        }
    }
    assert forall|i: int| 0 <= i < tiles.len() implies (#[trigger] tiles[i]).1.inside(r) by {
        assert(leaves[i].1.inside(r));
        assert forall|px: int, py: int|
            tiles[i].1.has_point(px, py) implies r.has_point(px, py) by {
            assert(leaves[i].1.has_point(px, py));
        }
    }
    assert forall|px: int, py: int|
        r.has_point(px, py) <==> exists|i: int|
            0 <= i < tiles.len() && (#[trigger] tiles[i]).1.spec_grow(gap).has_point(px, py) by {
        if r.has_point(px, py) {
            assert(covered(leaves, px, py));
            let i = choose|i: int| 0 <= i < leaves.len() && leaves[i].1.has_point(px, py);
            assert(tiles[i].1.spec_grow(gap).has_point(px, py));
        }
        if exists|i: int|
            0 <= i < tiles.len() && (#[trigger] tiles[i]).1.spec_grow(gap).has_point(px, py) {
            let i = choose|i: int|
                0 <= i < tiles.len() && (#[trigger] tiles[i]).1.spec_grow(gap).has_point(px, py);
            assert(leaves[i].1.has_point(px, py));
            assert(covered(leaves, px, py));
        }
    }
}

/// Pairwise disjointness of the rectangles in a tile list.
pub open spec fn tiles_disjoint(leaves: Seq<(WindowId, Rect)>) -> bool {
    forall|i: int, j: int|
        0 <= i < j < leaves.len() ==> leaves[i].1.disjoint(leaves[j].1)
}

/// Some rectangle in the tile list holds the point.
pub open spec fn covered(leaves: Seq<(WindowId, Rect)>, px: int, py: int) -> bool {
    exists|i: int| 0 <= i < leaves.len() && leaves[i].1.has_point(px, py)
}

/// The left share of a length, in ratio thousandths.
pub fn ratio_part(len: i64, ratio: i64) -> (p: i64)
    requires
        0 <= len <= 2 * crate::geometry::COORD_LIMIT,
        ratio_wf(ratio as int),
    ensures
        p == len * ratio / 1000,
        0 <= p <= len,
{
    proof {
        lemma_ratio_part_bounds(len as int, ratio as int);
        assert(len * ratio <= 2 * crate::geometry::COORD_LIMIT * 1000) by (nonlinear_arith)
            requires
                0 <= len <= 2 * crate::geometry::COORD_LIMIT,
                0 < ratio < 1000,
        ;
        assert(len * ratio >= 0) by (nonlinear_arith)
            requires
                0 <= len,
                0 < ratio,
        ;
    }
    len * ratio / 1000
}


/// One edit of the tree's window population.
pub enum BspOp {
    Insert(WindowId),
    Remove(WindowId),
}

/// The windows of an optional tree, as a set.
pub open spec fn opt_tree_ids(t: Option<BspTree>) -> Set<WindowId> {
    Set::new(
        |x: WindowId|
            match t {
                Some(tt) => tt.spec_contains(x),
                None => false,
            },
    )
}

/// Run a sequence of edits: an insert of a window already present is a
/// no-op (keeping the tree duplicate-free), an insert into an empty layout
/// seeds a fresh leaf, and removing the last window empties the layout.
pub open spec fn spec_apply_ops(
    t: Option<BspTree>,
    ops: Seq<BspOp>,
    ratio: i64,
    seed_rect: Rect,
) -> Option<BspTree>
    decreases ops.len(),
{
    if ops.len() == 0 {
        t
    } else {
        let t1 = match ops[0] {
            BspOp::Insert(id) => match t {
                None => Some(BspTree::Leaf { id, rect: seed_rect }),
                Some(tt) => if tt.spec_contains(id) {
                    Some(tt)
                } else {
                    Some(tt.spec_insert(id, ratio, true))
                },
            },
            BspOp::Remove(id) => match t {
                None => None,
                Some(tt) => tt.spec_remove(id),
            },
        };
        spec_apply_ops(t1, ops.subrange(1, ops.len() as int), ratio, seed_rect)
    }
}

/// The window set the edits ask for.
pub open spec fn spec_expected_ids(init: Set<WindowId>, ops: Seq<BspOp>) -> Set<WindowId>
    decreases ops.len(),
{
    if ops.len() == 0 {
        init
    } else {
        let next = match ops[0] {
            BspOp::Insert(id) => init.insert(id),
            BspOp::Remove(id) => init.remove(id),
        };
        spec_expected_ids(next, ops.subrange(1, ops.len() as int))
    }
}

/// Law: after any sequence of inserts and removals, the set of windows in
/// the tree equals the requested set, and the tree holds no duplicates.
pub proof fn lemma_bsp_bijection(t: Option<BspTree>, ops: Seq<BspOp>, ratio: i64, seed_rect: Rect)
    requires
        match t {
            Some(tt) => tt.wf() && tt.spec_distinct(),
            None => true,
        },
        ratio_wf(ratio as int),
    ensures
        match spec_apply_ops(t, ops, ratio, seed_rect) {
            Some(tt) => {
                &&& tt.wf()
                &&& tt.spec_distinct()
                &&& forall|x: WindowId|
                    #[trigger] tt.spec_contains(x) <==> spec_expected_ids(
                        opt_tree_ids(t),
                        ops,
                    ).contains(x)
            },
            None => spec_expected_ids(opt_tree_ids(t), ops) =~= Set::<WindowId>::empty(),
        },
    decreases ops.len(),
{
    if ops.len() == 0 {
        match t {
            Some(tt) => {
                assert forall|x: WindowId|
                    #[trigger] tt.spec_contains(x) <==> spec_expected_ids(
                    opt_tree_ids(t),
                    ops,
                ).contains(x) by {
                    assert(opt_tree_ids(t).contains(x) == tt.spec_contains(x));
                }
            },
            None => {
                assert forall|x: WindowId|
                    !(#[trigger] spec_expected_ids(opt_tree_ids(t), ops).contains(x)) by {
                    assert(opt_tree_ids(t).contains(x) == false);
                }
            },
        }
    } else {
        let op = ops[0];
        let rest = ops.subrange(1, ops.len() as int);
        let t1 = match op {
            BspOp::Insert(id) => match t {
                None => Some(BspTree::Leaf { id, rect: seed_rect }),
                Some(tt) => if tt.spec_contains(id) {
                    Some(tt)
                } else {
                    Some(tt.spec_insert(id, ratio, true))
                },
            },
            BspOp::Remove(id) => match t {
                None => None,
                Some(tt) => tt.spec_remove(id),
            },
        };
        let init1 = match op {
            BspOp::Insert(id) => opt_tree_ids(t).insert(id),
            BspOp::Remove(id) => opt_tree_ids(t).remove(id),
        };
        // The one edit takes the tree to the edited window set.
        match op {
            BspOp::Insert(id) => {
                match t {
                    None => {
                        let leaf = BspTree::Leaf { id, rect: seed_rect };
                        assert(leaf.wf());
                        assert(leaf.spec_distinct());
                        assert forall|x: WindowId|
                            #[trigger] leaf.spec_contains(x) <==> init1.contains(x) by {
                            assert(leaf.spec_contains(x) == (x == id));
                            assert(opt_tree_ids(t).contains(x) == false);
                        }
                    },
                    Some(tt) => {
                        if tt.spec_contains(id) {
                            assert forall|x: WindowId|
                                #[trigger] tt.spec_contains(x) <==> init1.contains(x) by {
                                assert(opt_tree_ids(t).contains(x) == tt.spec_contains(x));
                            }
                        } else {
                            tt.lemma_insert_wf(id, ratio, true);
                            tt.lemma_insert_contains(id, ratio, true);
                            tt.lemma_insert_distinct(id, ratio, true);
                            let ti = tt.spec_insert(id, ratio, true);
                            assert forall|x: WindowId|
                                #[trigger] ti.spec_contains(x) <==> init1.contains(x) by {
                                assert(ti.spec_contains(x) == (tt.spec_contains(x) || x == id));
                                assert(opt_tree_ids(t).contains(x) == tt.spec_contains(x));
                            }
                        }
                    },
                }
            },
            BspOp::Remove(id) => {
                match t {
                    None => {
                        assert forall|x: WindowId| !(#[trigger] init1.contains(x)) by {
                            assert(opt_tree_ids(t).contains(x) == false);
                        }
                    },
                    Some(tt) => {
                        tt.lemma_remove_props(id);
                        match tt.spec_remove(id) {
                            None => {
                                assert forall|x: WindowId| !(#[trigger] init1.contains(x)) by {
                                    tt.lemma_contains_leaf_ids(x);
                                    assert(tt.leaf_ids() == seq![id]);
                                    assert(opt_tree_ids(t).contains(x) == tt.spec_contains(x));
                                }
                            },
                            Some(tr) => {
                                assert forall|x: WindowId|
                                    #[trigger] tr.spec_contains(x) <==> init1.contains(x) by {
                                    assert(tr.spec_contains(x) == (tt.spec_contains(x) && x
                                        != id));
                                    assert(opt_tree_ids(t).contains(x) == tt.spec_contains(x));
                                }
                            },
                        }
                    },
                }
            },
        }
        // The edited window set matches the edited tree's own set.
        assert(opt_tree_ids(t1) =~= init1) by {
            assert forall|x: WindowId|
                opt_tree_ids(t1).contains(x) == init1.contains(x) by {
                match t1 {
                    Some(tt1) => {
                        assert(opt_tree_ids(t1).contains(x) == tt1.spec_contains(x));
                    },
                    None => {
                        assert(opt_tree_ids(t1).contains(x) == false);
                    },
                }
            }
        }
        lemma_bsp_bijection(t1, rest, ratio, seed_rect);
        assert(spec_apply_ops(t, ops, ratio, seed_rect) == spec_apply_ops(
            t1,
            rest,
            ratio,
            seed_rect,
        ));
        assert(spec_expected_ids(opt_tree_ids(t), ops) == spec_expected_ids(init1, rest));
    }
}

} // verus!
