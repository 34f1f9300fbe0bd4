//! The layout-tree model the extractor walks.
//!
//! A compiled document is an ordered list of pages; only the first page is
//! ever used. A page is a frame: a size plus an ordered list of positioned
//! items. An item is a nested group (itself a frame), a structural marker,
//! or other content that extraction ignores. Positions are relative to the
//! immediate parent; an absolute position is the sum of the ancestor
//! offsets and the local position.
//!
//! Markers carry an explicit `grid` attribute instead of an incidental
//! element name, and an optional label; that is the stable contract the
//! authoring template must emit.
//!
//! Coordinates are integer document units. The boundedness predicates
//! below say that every absolute position and every group size stays
//! within `COORD_LIMIT`; that is what lets the extractor's arithmetic stay
//! inside `i64`.

use vstd::prelude::*;

use crate::geometry::COORD_LIMIT;

verus! {

/// A positioned sub-tree of laid-out content: its size in document units
/// and its items in authored order.
pub struct Frame {
    pub width: i64,
    pub height: i64,
    pub items: Vec<PlacedItem>,
}

/// An item together with its position relative to the enclosing frame.
pub struct PlacedItem {
    pub x: i64,
    pub y: i64,
    pub item: Item,
}

/// One item of a frame.
pub enum Item {
    /// A nested frame; extraction treats a matched group as atomic.
    Group(Box<Frame>),
    /// A non-visual structural annotation.
    Marker(Marker),
    /// Text, shapes and the rest: ignored by extraction.
    Other,
}

/// A structural marker. A start marker says explicitly whether it opens a
/// grid-marked block, and carries the block's label when one was authored.
pub enum Marker {
    Start { grid: bool, label: Option<String> },
    End,
}

/// An ordered list of pages, as the compiler produced them.
pub struct CompiledDocument {
    pub pages: Vec<Frame>,
}

/// A coordinate that stays within the shared bound.
pub open spec fn in_coord_range(v: int) -> bool {
    -(COORD_LIMIT as int) <= v <= COORD_LIMIT as int
}

/// Every absolute position reachable inside `f`, when `f` itself sits at
/// absolute offset `(ox, oy)`, stays within the coordinate bound, and so
/// does every group size.
pub open spec fn frame_bounded(f: Frame, ox: int, oy: int) -> bool
    decreases f,
{
    forall|i: int| 0 <= i < f.items@.len() ==> item_bounded(#[trigger] f.items@[i], ox, oy)
}

/// Boundedness of one placed item at parent offset `(ox, oy)`.
pub open spec fn item_bounded(p: PlacedItem, ox: int, oy: int) -> bool
    decreases p,
{
    &&& in_coord_range(ox + p.x)
    &&& in_coord_range(oy + p.y)
    &&& match p.item {
        Item::Group(g) => {
            &&& 0 <= g.width <= COORD_LIMIT
            &&& 0 <= g.height <= COORD_LIMIT
            &&& frame_bounded(*g, ox + p.x, oy + p.y)
        },
        _ => true,
    }
}

/// A page fit for the pipeline: positive size within the coordinate
/// bound, and a bounded tree hanging from the origin.
pub open spec fn page_wf(f: Frame) -> bool {
    &&& 1 <= f.width <= COORD_LIMIT
    &&& 1 <= f.height <= COORD_LIMIT
    &&& frame_bounded(f, 0, 0)
}

impl Frame {
    /// Check boundedness of the tree under `self` at offset `(ox, oy)`.
    pub fn check_bounded(&self, ox: i64, oy: i64) -> (r: bool)
        requires
            in_coord_range(ox as int),
            in_coord_range(oy as int),
        ensures
            r == frame_bounded(*self, ox as int, oy as int),
        decreases *self,
    {
        let mut i: usize = 0;
        while i < self.items.len()
            invariant
                0 <= i <= self.items@.len(),
                in_coord_range(ox as int),
                in_coord_range(oy as int),
                forall|j: int|
                    0 <= j < i ==> item_bounded(#[trigger] self.items@[j], ox as int, oy as int),
            decreases self.items@.len() - i,
        {
            let p = &self.items[i];
            let limit = COORD_LIMIT as i64;
            if !(-limit - ox <= p.x && p.x <= limit - ox && -limit - oy <= p.y && p.y
                <= limit - oy) {
                assert(!item_bounded(self.items@[i as int], ox as int, oy as int));
                return false;
            }
            match &p.item {
                Item::Group(g) => {
                    if !(0 <= g.width && g.width <= limit && 0 <= g.height && g.height <= limit) {
                        assert(!item_bounded(self.items@[i as int], ox as int, oy as int));
                        return false;
                    }
                    if !g.check_bounded(ox + p.x, oy + p.y) {
                        assert(!item_bounded(self.items@[i as int], ox as int, oy as int));
                        return false;
                    }
                },
                _ => {},
            }
            assert(item_bounded(self.items@[i as int], ox as int, oy as int));
            i = i + 1;
        }
        true
    }

    /// Check that `self` can serve as a page: positive bounded size and a
    /// bounded tree.
    pub fn check_page(&self) -> (r: bool)
        ensures
            r == page_wf(*self),
    {
        let limit = COORD_LIMIT as i64;
        1 <= self.width && self.width <= limit && 1 <= self.height && self.height <= limit
            && self.check_bounded(0, 0)
    }
}

} // verus!
