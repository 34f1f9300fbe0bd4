//! The fit calculator: one scale ratio mapping document units to pixels
//! under a contain-fit policy.
//!
//! With page size `(pw, ph)` and panel size `(vw, vh)`, the panel is
//! relatively wider than the page when `vw/vh > pw/ph`; then the page is
//! fitted by height, `ratio = vh/ph`, and otherwise by width,
//! `ratio = vw/pw`. All comparisons are exact cross-multiplications, so the
//! contain property below holds with equality on the fitted axis, not just
//! within a tolerance.

use vstd::prelude::*;

use crate::geometry::{lemma_dim_product_bounds, Frac, COORD_LIMIT};

verus! {

/// The panel's aspect ratio exceeds the page's: `vw/vh > pw/ph`,
/// cross-multiplied.
pub open spec fn panel_wider(pw: int, ph: int, vw: int, vh: int) -> bool {
    vw * ph > pw * vh
}

/// Numerator of the contain-fit ratio.
pub open spec fn spec_fit_num(pw: int, ph: int, vw: int, vh: int) -> int {
    if panel_wider(pw, ph, vw, vh) {
        vh
    } else {
        vw
    }
}

/// Denominator of the contain-fit ratio.
pub open spec fn spec_fit_den(pw: int, ph: int, vw: int, vh: int) -> int {
    if panel_wider(pw, ph, vw, vh) {
        ph
    } else {
        pw
    }
}

/// Compute the contain-fit ratio for a page of size `(page_w, page_h)`
/// shown in a panel of size `(panel_w, panel_h)`.
pub fn compute_fit(page_w: u32, page_h: u32, panel_w: u32, panel_h: u32) -> (r: Frac)
    requires
        1 <= page_w <= COORD_LIMIT,
        1 <= page_h <= COORD_LIMIT,
        1 <= panel_w <= COORD_LIMIT,
        1 <= panel_h <= COORD_LIMIT,
    ensures
        r.num == spec_fit_num(page_w as int, page_h as int, panel_w as int, panel_h as int),
        r.den == spec_fit_den(page_w as int, page_h as int, panel_w as int, panel_h as int),
        r.wf(),
{
    proof {
        lemma_dim_product_bounds(panel_w as int, page_h as int);
        lemma_dim_product_bounds(page_w as int, panel_h as int);
    }
    if (panel_w as u64) * (page_h as u64) > (page_w as u64) * (panel_h as u64) {
        Frac { num: panel_h, den: page_h }
    } else {
        Frac { num: panel_w, den: page_w }
    }
}

/// The contain law: the fitted page never exceeds the panel on either
/// axis; the fitted axis is filled exactly; the other axis is strict
/// unless the two aspect ratios agree. All inequalities relate
/// `page * ratio` to `panel` by cross-multiplication with the ratio's
/// denominator.
pub proof fn lemma_fit_is_contain(pw: int, ph: int, vw: int, vh: int)
    by (nonlinear_arith)
    requires
        1 <= pw,
        1 <= ph,
        1 <= vw,
        1 <= vh,
    ensures
        pw * spec_fit_num(pw, ph, vw, vh) <= vw * spec_fit_den(pw, ph, vw, vh),
        ph * spec_fit_num(pw, ph, vw, vh) <= vh * spec_fit_den(pw, ph, vw, vh),
        panel_wider(pw, ph, vw, vh) ==> ph * spec_fit_num(pw, ph, vw, vh) == vh * spec_fit_den(
            pw,
            ph,
            vw,
            vh,
        ) && pw * spec_fit_num(pw, ph, vw, vh) < vw * spec_fit_den(pw, ph, vw, vh),
        !panel_wider(pw, ph, vw, vh) ==> pw * spec_fit_num(pw, ph, vw, vh) == vw * spec_fit_den(
            pw,
            ph,
            vw,
            vh,
        ) && (ph * spec_fit_num(pw, ph, vw, vh) == vh * spec_fit_den(pw, ph, vw, vh) <==> vw * ph
            == pw * vh),
{
}

/// Scaling the panel uniformly by `k` scales the fit ratio by exactly
/// `k`: the scaled ratio equals `k` times the original, stated by
/// cross-multiplication of the two fractions.
pub proof fn lemma_fit_scales(pw: int, ph: int, vw: int, vh: int, k: int)
    by (nonlinear_arith)
    requires
        1 <= pw,
        1 <= ph,
        1 <= vw,
        1 <= vh,
        1 <= k,
    ensures
        panel_wider(pw, ph, k * vw, k * vh) == panel_wider(pw, ph, vw, vh),
        spec_fit_num(pw, ph, k * vw, k * vh) * spec_fit_den(pw, ph, vw, vh) == k * spec_fit_num(
            pw,
            ph,
            vw,
            vh,
        ) * spec_fit_den(pw, ph, k * vw, k * vh),
{
}

} // verus!
