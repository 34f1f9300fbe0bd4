//! Interactive overlays: one hover/click target per extracted block.
//!
//! An overlay pairs a block's exact pixel rectangle and label with the
//! popup the content store gives that label, and a visibility flag for
//! the popup. The drawing itself belongs to the display layer; this
//! module owns the state and its one invariant: a popup can only be
//! visible where there is a popup to show, so an unknown label can never
//! open one.

use vstd::prelude::*;

use crate::extract::DataBlock;
use crate::geometry::Px;
use crate::popup::{popup_data_for, Popup, PopupStore};

verus! {

/// The hover-sensitive rectangle of an overlay, in exact pixel
/// fractions.
#[derive(Clone, Copy, PartialEq, Eq, Structural, Debug)]
pub struct HoverRect {
    pub x: Px,
    pub y: Px,
    pub width: Px,
    pub height: Px,
}

/// One interactive area over the rendered page.
pub struct Overlay {
    hover_rect: HoverRect,
    is_popup_visible: bool,
    label: String,
    popup: Option<Popup>,
}

impl Overlay {
    /// The overlay's rectangle.
    pub closed spec fn spec_rect(self) -> HoverRect {
        self.hover_rect
    }

    /// The overlay's label.
    pub closed spec fn spec_label(self) -> Seq<char> {
        self.label@
    }

    /// The overlay's popup, if its label resolved to content.
    pub closed spec fn spec_popup(self) -> Option<Popup> {
        self.popup
    }

    /// Whether the popup is shown.
    pub closed spec fn spec_visible(self) -> bool {
        self.is_popup_visible
    }

    /// A popup is visible only where there is one to show.
    pub open spec fn wf(self) -> bool {
        self.spec_visible() ==> self.spec_popup() is Some
    }

    /// A fresh overlay: hidden popup, the given rectangle, label and
    /// popup content.
    pub fn new(rect: HoverRect, label: String, popup: Option<Popup>) -> (r: Overlay)
        ensures
            r.spec_rect() == rect,
            r.spec_label() == label@,
            r.spec_popup() == popup,
            !r.spec_visible(),
            r.wf(),
    {
        Overlay { hover_rect: rect, is_popup_visible: false, label, popup }
    }

    /// The overlay's hover rectangle.
    pub fn rect(&self) -> (r: HoverRect)
        ensures
            r == self.spec_rect(),
    {
        self.hover_rect
    }

    /// Whether the overlay's label resolved to popup content.
    pub fn has_popup(&self) -> (r: bool)
        ensures
            r == (self.spec_popup() is Some),
    {
        if self.popup.is_some() {
            true
        } else {
            false
        }
    }

    /// Show the popup — when there is one. Without content the overlay
    /// stays as it was: an unknown label degrades to no popup.
    pub fn show_popup(&mut self)
        ensures
            final(self).spec_rect() == old(self).spec_rect(),
            final(self).spec_label() == old(self).spec_label(),
            final(self).spec_popup() == old(self).spec_popup(),
            final(self).spec_visible() == if old(self).spec_popup() is Some {
                true
            } else {
                old(self).spec_visible()
            },
            old(self).wf() ==> final(self).wf(),
    {
        if self.popup.is_some() {
            self.is_popup_visible = true;
        }
    }

    /// Hide the popup.
    pub fn hide_popup(&mut self)
        ensures
            final(self).spec_rect() == old(self).spec_rect(),
            final(self).spec_label() == old(self).spec_label(),
            final(self).spec_popup() == old(self).spec_popup(),
            !final(self).spec_visible(),
            final(self).wf(),
    {
        self.is_popup_visible = false;
    }

    /// Whether the popup is currently shown.
    pub fn is_popup_visible(&self) -> (r: bool)
        ensures
            r == self.spec_visible(),
    {
        self.is_popup_visible
    }

    /// The popup content, if any.
    pub fn popup(&self) -> (r: Option<&Popup>)
        ensures
            match r {
                Some(p) => self.spec_popup() matches Some(q) && *p == q,
                None => self.spec_popup() is None,
            },
    {
        self.popup.as_ref()
    }

    /// The overlay's label.
    pub fn label(&self) -> (r: String)
        ensures
            r@ == self.spec_label(),
    {
        self.label.clone()
    }
}

/// An overlay that never received popup content can never show one,
/// however the show and hide calls interleave: showing it leaves it
/// hidden.
pub proof fn lemma_no_popup_never_visible(o: Overlay, shown: Overlay)
    requires
        o.wf(),
        o.spec_popup() is None,
        shown.spec_popup() == o.spec_popup(),
        shown.spec_visible() == if o.spec_popup() is Some {
            true
        } else {
            o.spec_visible()
        },
    ensures
        !shown.spec_visible(),
        shown.wf(),
{
}

/// Turn extracted blocks into overlays, in order: each block keeps its
/// rectangle and label, resolves its popup against the store, and starts
/// hidden.
pub fn build_areas(blocks: Vec<DataBlock>, store: &PopupStore) -> (areas: Vec<Overlay>)
    ensures
        areas@.len() == blocks@.len(),
        forall|i: int|
            0 <= i < blocks@.len() ==> {
                let o = #[trigger] areas@[i];
                &&& o.spec_rect() == (HoverRect {
                    x: blocks@[i].x,
                    y: blocks@[i].y,
                    width: blocks@[i].width,
                    height: blocks@[i].height,
                })
                &&& o.spec_label() == blocks@[i].label@
                &&& (o.spec_popup() is Some <==> popup_data_for(
                    store.entries@,
                    blocks@[i].label@,
                ) is Some)
                &&& !o.spec_visible()
                &&& o.wf()
            },
{
    let mut areas: Vec<Overlay> = Vec::new();
    let n = blocks.len();
    let mut blocks = blocks;
    let ghost blocks0 = blocks@;
    let mut i: usize = 0;
    while i < n
        invariant
            0 <= i <= n,
            n == blocks0.len(),
            blocks@ == blocks0,
            areas@.len() == i,
            forall|q: int|
                0 <= q < i ==> {
                    let o = #[trigger] areas@[q];
                    &&& o.spec_rect() == (HoverRect {
                        x: blocks0[q].x,
                        y: blocks0[q].y,
                        width: blocks0[q].width,
                        height: blocks0[q].height,
                    })
                    &&& o.spec_label() == blocks0[q].label@
                    &&& (o.spec_popup() is Some <==> popup_data_for(
                        store.entries@,
                        blocks0[q].label@,
                    ) is Some)
                    &&& !o.spec_visible()
                    &&& o.wf()
                },
        decreases n - i,
    {
        let block = &blocks[i];
        let rect = HoverRect { x: block.x, y: block.y, width: block.width, height: block.height };
        let popup = Popup::new(store, &block.label);
        let area = Overlay::new(rect, block.label.clone(), popup);
        areas.push(area);
        i = i + 1;
    }
    areas
}

} // verus!
