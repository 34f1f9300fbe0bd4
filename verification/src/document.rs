//! One displayed page: the first page of a compiled document, the fit
//! ratio chosen for the current panel, and the raster the external
//! rasterizer produced at that ratio.
//!
//! The compiler and the rasterizer are outside collaborators. They hand
//! this module a ready [`CompiledDocument`] and a ready [`Image`]; the
//! module owns what can be decided from those values: rejecting an empty
//! document, guarding the machine limits, computing the fit ratio, and
//! extracting the labeled blocks.

use vstd::prelude::*;

use crate::extract::{blocks_match, extract_frame, run_items, Arm, DataBlock, ExtractError};
use crate::fit::{compute_fit, spec_fit_den, spec_fit_num};
use crate::geometry::{Frac, COORD_LIMIT};
use crate::layout::{page_wf, CompiledDocument, Frame};

verus! {

/// A rasterized page: RGBA bytes, unmultiplied alpha, row-major.
pub struct Image {
    pub data: Vec<u8>,
    pub width: u32,
    pub height: u32,
}

impl Image {
    /// Four bytes per pixel.
    pub open spec fn wf(self) -> bool {
        self.data@.len() == 4 * self.width * self.height
    }
}

/// A failure fatal to one recompute attempt. The caller keeps the
/// previously successful page and block list on display and retries only
/// on the next viewport change.
#[derive(Clone, Copy, PartialEq, Eq, Structural, Debug)]
pub enum DocumentError {
    /// The compiler rejected the source.
    Compile,
    /// The compiled document produced zero pages.
    EmptyDocument,
    /// The first page does not fit the machine limits this pipeline
    /// works within: a size outside `1..=COORD_LIMIT`, or a tree with an
    /// absolute coordinate beyond `COORD_LIMIT`.
    OutOfBounds,
}

/// The first page of a compiled document with its fit ratio and raster.
pub struct DocumentPage {
    pub page: Frame,
    pub image: Image,
    pub ratio_page_to_panel: Frac,
}

impl DocumentPage {
    /// The ratio this page was planned with: the contain-fit of the
    /// page's size into the panel's.
    pub open spec fn ratio_fits(page: Frame, panel_w: int, panel_h: int, r: Frac) -> bool {
        &&& r.num == spec_fit_num(page.width as int, page.height as int, panel_w, panel_h)
        &&& r.den == spec_fit_den(page.width as int, page.height as int, panel_w, panel_h)
    }

    /// Plan a recompute: pick page 0 of the compiled document, guard the
    /// machine limits, and compute the fit ratio the rasterizer must
    /// render at. Fails exactly on an empty document or an out-of-bounds
    /// page.
    pub fn plan(doc: &CompiledDocument, panel_w: u32, panel_h: u32) -> (r: Result<
        Frac,
        DocumentError,
    >)
        requires
            1 <= panel_w <= COORD_LIMIT,
            1 <= panel_h <= COORD_LIMIT,
        ensures
            match r {
                Ok(f) => doc.pages@.len() > 0 && page_wf(doc.pages@[0]) && f.wf()
                    && Self::ratio_fits(doc.pages@[0], panel_w as int, panel_h as int, f),
                Err(DocumentError::EmptyDocument) => doc.pages@.len() == 0,
                Err(DocumentError::OutOfBounds) => doc.pages@.len() > 0 && !page_wf(
                    doc.pages@[0],
                ),
                Err(DocumentError::Compile) => false,
            },
    {
        if doc.pages.len() == 0 {
            return Err(DocumentError::EmptyDocument);
        }
        let page = &doc.pages[0];
        if !page.check_page() {
            return Err(DocumentError::OutOfBounds);
        }
        Ok(compute_fit(page.width as u32, page.height as u32, panel_w, panel_h))
    }

    /// Build the displayed page from a compiled document, the panel size,
    /// and the raster produced at the planned ratio. Only page 0 is used.
    /// Fails exactly as [`DocumentPage::plan`] does.
    pub fn new_followup(doc: CompiledDocument, panel_w: u32, panel_h: u32, image: Image) -> (r:
        Result<DocumentPage, DocumentError>)
        requires
            1 <= panel_w <= COORD_LIMIT,
            1 <= panel_h <= COORD_LIMIT,
            image.wf(),
        ensures
            match r {
                Ok(dp) => {
                    &&& doc.pages@.len() > 0
                    &&& page_wf(doc.pages@[0])
                    &&& dp.page == doc.pages@[0]
                    &&& dp.image == image
                    &&& dp.ratio_page_to_panel.wf()
                    &&& Self::ratio_fits(
                        dp.page,
                        panel_w as int,
                        panel_h as int,
                        dp.ratio_page_to_panel,
                    )
                },
                Err(DocumentError::EmptyDocument) => doc.pages@.len() == 0,
                Err(DocumentError::OutOfBounds) => doc.pages@.len() > 0 && !page_wf(
                    doc.pages@[0],
                ),
                Err(DocumentError::Compile) => false,
            },
    {
        let ratio = match Self::plan(&doc, panel_w, panel_h) {
            Ok(f) => f,
            Err(e) => {
                return Err(e);
            },
        };
        let mut pages = doc.pages;
        let page = pages.remove(0);
        Ok(DocumentPage { page, image, ratio_page_to_panel: ratio })
    }

    /// The raster's bytes, for the display layer.
    pub fn as_vec(&self) -> (r: &Vec<u8>)
        ensures
            r@ == self.image.data@,
    {
        &self.image.data
    }

    /// Extract the labeled pixel blocks of the page at the page's own
    /// ratio. Fails exactly when the tree holds a grid marker arriving at
    /// an armed level.
    pub fn get_data_blocks(&self) -> (r: Result<Vec<DataBlock>, ExtractError>)
        requires
            page_wf(self.page),
            self.ratio_page_to_panel.wf(),
        ensures
            match run_items(self.page.items@, Arm::Idle, 0, 0) {
                Some(t) => r matches Ok(v) && blocks_match(
                    v@,
                    t.0,
                    self.ratio_page_to_panel.num as int,
                    self.ratio_page_to_panel.den as int,
                ),
                None => r matches Err(e) && e == ExtractError::MarkerAlreadyArmed,
            },
    {
        extract_frame(&self.page, 0, 0, self.ratio_page_to_panel)
    }
}

/// The contain law at the page level: a page shown at the ratio its
/// panel was planned with never exceeds the panel on either axis, and
/// fills it exactly on at least one. All comparisons cross-multiply
/// with the ratio's denominator.
pub proof fn lemma_page_fits_panel(page: Frame, panel_w: int, panel_h: int, r: Frac)
    requires
        1 <= page.width,
        1 <= page.height,
        1 <= panel_w,
        1 <= panel_h,
        DocumentPage::ratio_fits(page, panel_w, panel_h, r),
    ensures
        page.width * r.num <= panel_w * r.den,
        page.height * r.num <= panel_h * r.den,
        page.width * r.num == panel_w * r.den || page.height * r.num == panel_h * r.den,
{
    crate::fit::lemma_fit_is_contain(page.width as int, page.height as int, panel_w, panel_h);
}

} // verus!
