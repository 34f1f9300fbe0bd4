//! The orientation parameterizer.
//!
//! Instead of rewriting the source text before compilation, the pipeline
//! hands the compilation environment one declarative parameter, chosen
//! from the panel's shape, and the document template selects its layout
//! branch from it.

use vstd::prelude::*;

verus! {

/// The layout branch a document template is asked to take.
#[derive(Clone, Copy, PartialEq, Eq, Structural, Debug)]
pub enum Orientation {
    Portrait,
    Landscape,
}

/// The orientation for a panel: landscape exactly when the panel is
/// wider than it is tall.
pub fn orientation_for_panel(panel_w: u32, panel_h: u32) -> (r: Orientation)
    ensures
        r == (if panel_w > panel_h {
            Orientation::Landscape
        } else {
            Orientation::Portrait
        }),
{
    if panel_w > panel_h {
        Orientation::Landscape
    } else {
        Orientation::Portrait
    }
}

} // verus!
